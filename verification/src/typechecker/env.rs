//! The table of function signatures.

use super::types::{clone_types, types_view, InternalType, TypeModel};
use crate::interpreter::env::{EnvironmentError, EnvironmentErrorModel};
use vstd::prelude::*;

verus! {

/// A table of signatures: each name with its parameter types followed by its
/// return type.
pub type Signatures = Map<Seq<char>, Seq<TypeModel>>;

/// The table that a list of entries stands for. Where a name occurs twice,
/// the later entry holds.
pub open spec fn table_of(entries: Seq<(String, Vec<InternalType>)>) -> Signatures
    decreases entries.len(),
{
    if entries.len() == 0 {
        Map::empty()
    } else {
        table_of(entries.drop_last()).insert(
            entries.last().0@,
            types_view(entries.last().1@),
        )
    }
}

/// The signatures of the builtin functions.
pub open spec fn builtin_signatures() -> Signatures {
    Map::empty().insert("put"@, seq![TypeModel::Any, TypeModel::Text, TypeModel::Any]).insert(
        "get"@,
        seq![TypeModel::Text, TypeModel::Any],
    ).insert("exists"@, seq![TypeModel::Text, TypeModel::Boolean]).insert(
        "remove"@,
        seq![TypeModel::Text, TypeModel::Any],
    ).insert("store"@, seq![TypeModel::Text, TypeModel::Unit]).insert(
        "write"@,
        seq![TypeModel::Text, TypeModel::Unit],
    ).insert("writeln"@, seq![TypeModel::Text, TypeModel::Unit])
}

/// The return type of `name`: the last type of its signature.
pub open spec fn return_type_in(table: Signatures, name: Seq<char>) -> Option<TypeModel> {
    if table.contains_key(name) {
        Some(table[name].last())
    } else {
        None
    }
}

/// The parameter types of `name`: its signature without the last type, and
/// nothing where the name is not defined.
pub open spec fn param_types_in(table: Signatures, name: Seq<char>) -> Seq<TypeModel> {
    if table.contains_key(name) {
        table[name].drop_last()
    } else {
        Seq::empty()
    }
}

/// The type of `name` as a function.
pub open spec fn function_type_in(table: Signatures, name: Seq<char>) -> Option<TypeModel> {
    if table.contains_key(name) {
        Some(
            TypeModel::Application(
                name,
                table[name].drop_last(),
                Box::new(table[name].last()),
            ),
        )
    } else {
        None
    }
}

/// The value of a type that may be absent.
pub open spec fn option_type_view(t: Option<InternalType>) -> Option<TypeModel> {
    match t {
        Some(t) => Some(t@),
        None => None,
    }
}

/// Every signature of the list holds at least a return type.
pub open spec fn signatures_hold(entries: Seq<(String, Vec<InternalType>)>) -> bool {
    forall|i: int| 0 <= i < entries.len() ==> (#[trigger] entries[i]).1.len() > 0
}

/// Adding an entry at the end of a list sets its name in the table.
pub proof fn lemma_table_push(
    entries: Seq<(String, Vec<InternalType>)>,
    entry: (String, Vec<InternalType>),
)
    ensures
        table_of(entries.push(entry)) == table_of(entries).insert(
            entry.0@,
            types_view(entry.1@),
        ),
{
    assert(entries.push(entry).drop_last() =~= entries);
}

/// The entry of one function.
fn signature(name: &str, types: Vec<InternalType>) -> (r: (String, Vec<InternalType>))
    ensures
        r.0@ == name@,
        r.1 == types,
{
    (name.to_owned(), types)
}

/// The builtin functions, each with its parameter types followed by its
/// return type.
pub fn builtins() -> (r: Vec<(String, Vec<InternalType>)>)
    ensures
        table_of(r@) == builtin_signatures(),
        signatures_hold(r@),
        r.len() == 7,
{
    let mut table: Vec<(String, Vec<InternalType>)> = Vec::new();
    let put = signature("put", vec![InternalType::Any, InternalType::Text, InternalType::Any]);
    let get = signature("get", vec![InternalType::Text, InternalType::Any]);
    let exists = signature("exists", vec![InternalType::Text, InternalType::Boolean]);
    let remove = signature("remove", vec![InternalType::Text, InternalType::Any]);
    let store = signature("store", vec![InternalType::Text, InternalType::Unit]);
    let write = signature("write", vec![InternalType::Text, InternalType::Unit]);
    let writeln = signature("writeln", vec![InternalType::Text, InternalType::Unit]);
    proof {
        assert(types_view(put.1@) =~= seq![TypeModel::Any, TypeModel::Text, TypeModel::Any]);
        assert(types_view(get.1@) =~= seq![TypeModel::Text, TypeModel::Any]);
        assert(types_view(exists.1@) =~= seq![TypeModel::Text, TypeModel::Boolean]);
        assert(types_view(remove.1@) =~= seq![TypeModel::Text, TypeModel::Any]);
        assert(types_view(store.1@) =~= seq![TypeModel::Text, TypeModel::Unit]);
        assert(types_view(write.1@) =~= seq![TypeModel::Text, TypeModel::Unit]);
        assert(types_view(writeln.1@) =~= seq![TypeModel::Text, TypeModel::Unit]);
        lemma_table_push(table@, put);
        lemma_table_push(table@.push(put), get);
        lemma_table_push(table@.push(put).push(get), exists);
        lemma_table_push(table@.push(put).push(get).push(exists), remove);
        lemma_table_push(table@.push(put).push(get).push(exists).push(remove), store);
        lemma_table_push(
            table@.push(put).push(get).push(exists).push(remove).push(store),
            write,
        );
        lemma_table_push(
            table@.push(put).push(get).push(exists).push(remove).push(store).push(write),
            writeln,
        );
    }
    table.push(put);
    table.push(get);
    table.push(exists);
    table.push(remove);
    table.push(store);
    table.push(write);
    table.push(writeln);
    table
}

/// One function of an environment: its name, its parameter types and its
/// return type.
struct Entry {
    name: String,
    params: Vec<InternalType>,
    ret: InternalType,
}

impl Entry {
    /// The signature of the entry: its parameter types followed by its return
    /// type.
    spec fn signature(self) -> Seq<TypeModel> {
        types_view(self.params@).push(self.ret@)
    }
}

/// The table that a list of entries stands for. Where a name occurs twice,
/// the later entry holds.
spec fn entries_table(entries: Seq<Entry>) -> Signatures
    decreases entries.len(),
{
    if entries.len() == 0 {
        Map::empty()
    } else {
        entries_table(entries.drop_last()).insert(
            entries.last().name@,
            entries.last().signature(),
        )
    }
}

proof fn lemma_entries_push(entries: Seq<Entry>, entry: Entry)
    ensures
        entries_table(entries.push(entry)) == entries_table(entries).insert(
            entry.name@,
            entry.signature(),
        ),
{
    assert(entries.push(entry).drop_last() =~= entries);
}

proof fn lemma_entries_found(entries: Seq<Entry>, name: Seq<char>, i: int)
    requires
        0 <= i < entries.len(),
        entries[i].name@ == name,
        forall|j: int| i < j < entries.len() ==> (#[trigger] entries[j]).name@ != name,
    ensures
        entries_table(entries).contains_key(name),
        entries_table(entries)[name] == entries[i].signature(),
    decreases entries.len(),
{
    if i < entries.len() - 1 {
        lemma_entries_found(entries.drop_last(), name, i);
    }
}

proof fn lemma_entries_missing(entries: Seq<Entry>, name: Seq<char>)
    requires
        forall|j: int| 0 <= j < entries.len() ==> (#[trigger] entries[j]).name@ != name,
    ensures
        !entries_table(entries).contains_key(name),
    decreases entries.len(),
{
    if entries.len() > 0 {
        lemma_entries_missing(entries.drop_last(), name);
    }
}

/// The entry of a name with its signature.
fn entry_of(name: String, types: &Vec<InternalType>) -> (r: Entry)
    requires
        types.len() > 0,
    ensures
        r.name@ == name@,
        r.signature() == types_view(types@),
{
    let mut params = clone_types(types);
    let ghost copied = params@;
    params.pop();
    let ret = types[types.len() - 1].clone();
    proof {
        assert(types_view(copied).len() == types_view(types@).len());
        assert forall|j: int| 0 <= j < params.len() implies types_view(params@)[j] == types_view(
            types@,
        )[j] by {
            assert(types_view(copied)[j] == types_view(types@)[j]);
        }
        assert(types_view(params@).push(ret@) =~= types_view(types@));
    }
    Entry { name, params, ret }
}

/// The functions that the checker knows, each with its signature.
pub struct Environment {
    env: Vec<Entry>,
}

impl View for Environment {
    type V = Signatures;

    closed spec fn view(&self) -> Signatures {
        entries_table(self.env@)
    }
}

impl Environment {
    /// The environment of the given functions. Where a name occurs twice, the
    /// later signature holds.
    pub fn new(functions: Vec<(String, Vec<InternalType>)>) -> (r: Environment)
        requires
            signatures_hold(functions@),
        ensures
            r@ == table_of(functions@),
    {
        let mut env: Vec<Entry> = Vec::new();
        let mut i: usize = 0;
        while i < functions.len()
            invariant
                i <= functions.len(),
                signatures_hold(functions@),
                entries_table(env@) == table_of(functions@.take(i as int)),
            decreases functions.len() - i,
        {
            let entry = entry_of(functions[i].0.clone(), &functions[i].1);
            proof {
                lemma_entries_push(env@, entry);
                lemma_table_push(functions@.take(i as int), functions@[i as int]);
                assert(functions@.take(i as int).push(functions@[i as int]) =~= functions@.take(
                    i + 1,
                ));
            }
            env.push(entry);
            i += 1;
        }
        assert(functions@.take(functions.len() as int) =~= functions@);
        Environment { env }
    }

    /// The environment of the builtin functions.
    pub fn builtin() -> (r: Environment)
        ensures
            r@ == builtin_signatures(),
    {
        Environment::new(builtins())
    }

    /// The index of the entry that holds for `name`.
    fn position(&self, name: &str) -> (r: Option<usize>)
        ensures
            match r {
                Some(i) => i < self.env.len() && self@.contains_key(name@) && self@[name@]
                    == self.env[i as int].signature(),
                None => !self@.contains_key(name@),
            },
    {
        let wanted = name.to_owned();
        let mut i: usize = self.env.len();
        while i > 0
            invariant
                i <= self.env.len(),
                wanted@ == name@,
                forall|j: int| i <= j < self.env.len() ==> (#[trigger] self.env[j]).name@ != name@,
            decreases i,
        {
            i -= 1;
            if self.env[i].name == wanted {
                proof {
                    lemma_entries_found(self.env@, name@, i as int);
                }
                return Some(i);
            }
        }
        proof {
            lemma_entries_missing(self.env@, name@);
        }
        None
    }

    /// Whether a function of this name is defined.
    pub fn is_defined(&self, name: &str) -> (r: bool)
        ensures
            r == self@.contains_key(name@),
    {
        self.position(name).is_some()
    }

    /// The return type of `name`, if it is defined.
    pub fn return_type_of(&self, name: &str) -> (r: Option<&InternalType>)
        ensures
            match r {
                Some(t) => return_type_in(self@, name@) == Some(t@),
                None => return_type_in(self@, name@) is None,
            },
    {
        match self.position(name) {
            Some(i) => Some(&self.env[i].ret),
            None => None,
        }
    }

    /// The parameter types of `name`; none where it is not defined.
    pub fn param_types_of(&self, name: &str) -> (r: Vec<InternalType>)
        ensures
            types_view(r@) == param_types_in(self@, name@),
    {
        match self.position(name) {
            Some(i) => {
                let params = clone_types(&self.env[i].params);
                assert(self.env[i as int].signature().drop_last() =~= types_view(
                    self.env[i as int].params@,
                ));
                params
            },
            None => {
                let params: Vec<InternalType> = Vec::new();
                assert(types_view(params@) =~= Seq::<TypeModel>::empty());
                params
            },
        }
    }

    /// The type of `name` as a function, if it is defined.
    pub fn function_type_of(&self, name: &str) -> (r: Option<InternalType>)
        ensures
            option_type_view(r) == function_type_in(self@, name@),
    {
        let params = self.param_types_of(name);
        match self.return_type_of(name) {
            Some(ret) => {
                let owned = name.to_owned();
                let boxed = Box::new(ret.clone());
                proof {
                    super::types::lemma_application_view(owned, params, boxed);
                }
                Some(InternalType::Application(owned, params, boxed))
            },
            None => None,
        }
    }

    /// Whether `name` is one of the builtin functions, whatever else this
    /// environment defines.
    pub fn is_builtin(&self, name: &str) -> (r: bool)
        ensures
            r == builtin_signatures().contains_key(name@),
    {
        Environment::builtin().is_defined(name)
    }

    /// Defines a function that is not defined yet. A name that is defined
    /// already is refused, and the environment stays as it was.
    pub fn define(&mut self, name: String, types: Vec<InternalType>) -> (r: Result<
        (),
        EnvironmentError,
    >)
        requires
            types.len() > 0,
        ensures
            old(self)@.contains_key(name@) ==> r is Err && r->Err_0@
                == EnvironmentErrorModel::FunctionAlreadyDefined(name@) && final(self)@ == old(
                self,
            )@,
            !old(self)@.contains_key(name@) ==> r is Ok && final(self)@ == old(self)@.insert(
                name@,
                types_view(types@),
            ),
    {
        if self.is_defined(name.as_str()) {
            return Err(EnvironmentError::FunctionAlreadyDefined(name));
        }
        let entry = entry_of(name, &types);
        proof {
            lemma_entries_push(self.env@, entry);
        }
        self.env.push(entry);
        Ok(())
    }
}

impl Default for Environment {
    fn default() -> (r: Self)
        ensures
            r@ == builtin_signatures(),
    {
        Environment::builtin()
    }
}

} // verus!
