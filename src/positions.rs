use vstd::prelude::*;
use indexmap::IndexMap;

verus! {

#[verifier::external_type_specification]
#[verifier::external_body]
#[verifier::reject_recursive_types(K)]
#[verifier::reject_recursive_types(V)]
#[verifier::reject_recursive_types(S)]
pub struct ExIndexMap<K, V, S>(IndexMap<K, V, S>);

/// What an argument-position map holds: argument name to position.
pub uninterp spec fn positions_of(m: IndexMap<String, u32>) -> Map<Seq<char>, u32>;

/// What a function map holds: function name to what its argument-position map holds.
pub uninterp spec fn functions_of(m: IndexMap<String, ArgumentPositions>) -> Map<
    Seq<char>,
    Map<Seq<char>, u32>,
>;

/// Relies on IndexMap::new: a new map holds nothing.
#[verifier::external_body]
fn new_positions() -> (r: IndexMap<String, u32>)
    ensures
        positions_of(r).dom() == Set::<Seq<char>>::empty(),
{
    IndexMap::new()
}

/// Relies on IndexMap::insert: the key maps to the value afterwards, an
/// existing entry for it being overwritten, and other keys are untouched.
#[verifier::external_body]
fn insert_position(m: &mut IndexMap<String, u32>, k: String, v: u32)
    ensures
        positions_of(*final(m)) == positions_of(*old(m)).insert(k@, v),
{
    m.insert(k, v);
}

/// Relies on IndexMap::get: the value under the key, if there is one.
#[verifier::external_body]
fn get_position(m: &IndexMap<String, u32>, k: &str) -> (r: Option<u32>)
    ensures
        r == (if positions_of(*m).contains_key(k@) {
            Some(positions_of(*m)[k@])
        } else {
            None
        }),
{
    m.get(k).copied()
}

/// Relies on IndexMap::new: a new map holds nothing.
#[verifier::external_body]
fn new_functions() -> (r: IndexMap<String, ArgumentPositions>)
    ensures
        functions_of(r).dom() == Set::<Seq<char>>::empty(),
{
    IndexMap::new()
}

/// Relies on IndexMap::insert: the name maps to the argument positions
/// afterwards, an existing entry for it being overwritten, and other names
/// are untouched.
#[verifier::external_body]
fn insert_function(m: &mut IndexMap<String, ArgumentPositions>, k: String, v: ArgumentPositions)
    ensures
        functions_of(*final(m)) == functions_of(*old(m)).insert(k@, positions_of(v.arguments)),
{
    m.insert(k, v);
}

/// Relies on IndexMap::get: the entry under the name, if there is one.
#[verifier::external_body]
fn get_function<'a>(m: &'a IndexMap<String, ArgumentPositions>, k: &str) -> (r: Option<
    &'a ArgumentPositions,
>)
    ensures
        r is Some == functions_of(*m).contains_key(k@),
        r is Some ==> positions_of(r->0.arguments) == functions_of(*m)[k@],
{
    m.get(k)
}

/// The declared position of one argument.
pub struct InputArugmentInfo {
    pub position: u32,
}

/// One function or procedure as the schema document lists it: its name and
/// its arguments' positions, in the order the document gives them.
pub struct InputFunctionInfo {
    pub name: String,
    pub arguments: Vec<(String, InputArugmentInfo)>,
}

/// The functions and procedures of the schema document.
pub struct InputFunctionArgumentPositions {
    pub functions: Vec<InputFunctionInfo>,
    pub procedures: Vec<InputFunctionInfo>,
}

/// The positions of one function's arguments.
pub struct ArgumentPositions {
    arguments: IndexMap<String, u32>,
}

/// Function name to argument name to position.
pub struct FunctionArgumentPositions {
    functions: IndexMap<String, ArgumentPositions>,
}

/// The argument positions of the first `n` entries, later entries
/// overriding earlier ones with the same name.
pub open spec fn arguments_index(a: Seq<(String, InputArugmentInfo)>, n: nat) -> Map<Seq<char>, u32>
    decreases n,
{
    if n == 0 || n > a.len() {
        Map::empty()
    } else {
        arguments_index(a, (n - 1) as nat).insert(a[n - 1].0@, a[n - 1].1.position)
    }
}

/// The index built from the first `n` functions, later entries overriding
/// earlier ones with the same name.
pub open spec fn functions_index(fs: Seq<InputFunctionInfo>, n: nat) -> Map<Seq<char>, Map<Seq<char>, u32>>
    decreases n,
{
    if n == 0 || n > fs.len() {
        Map::empty()
    } else {
        functions_index(fs, (n - 1) as nat).insert(
            fs[n - 1].name@,
            arguments_index(fs[n - 1].arguments@, fs[n - 1].arguments.len() as nat),
        )
    }
}

/// Position of argument `a` of function `f` in an index, if declared.
pub open spec fn index_lookup(idx: Map<Seq<char>, Map<Seq<char>, u32>>, f: Seq<char>, a: Seq<char>) -> Option<u32> {
    if idx.contains_key(f) && idx[f].contains_key(a) {
        Some(idx[f][a])
    } else {
        None
    }
}

/// The positions of one entry's arguments; a later argument with a name
/// already seen replaces the earlier one.
fn info_positions(f: &InputFunctionInfo) -> (r: ArgumentPositions)
    ensures
        positions_of(r.arguments) == arguments_index(f.arguments@, f.arguments.len() as nat),
{
    let mut arguments = new_positions();
    assert(positions_of(arguments) =~= arguments_index(f.arguments@, 0));
    let mut j: usize = 0;
    while j < f.arguments.len()
        invariant
            j <= f.arguments.len(),
            positions_of(arguments) == arguments_index(f.arguments@, j as nat),
        decreases f.arguments.len() - j,
    {
        let (k, v) = &f.arguments[j];
        insert_position(&mut arguments, k.clone(), v.position);
        j = j + 1;
    }
    ArgumentPositions { arguments }
}

impl InputFunctionArgumentPositions {
    /// All entries of the document: functions, then procedures.
    pub open spec fn entries(&self) -> Seq<InputFunctionInfo> {
        self.functions@ + self.procedures@
    }

    /// Merges functions and procedures into one index keyed by name; a later
    /// entry with a name already seen replaces the earlier one.
    pub fn fix(&self) -> (r: FunctionArgumentPositions)
        ensures
            r@ == functions_index(self.entries(), self.entries().len()),
    {
        let mut functions = new_functions();
        let ghost all = self.entries();
        assert(functions_of(functions) =~= functions_index(all, 0));
        let mut i: usize = 0;
        while i < self.functions.len()
            invariant
                all == self.entries(),
                i <= self.functions.len(),
                functions_of(functions) == functions_index(all, i as nat),
            decreases self.functions.len() - i,
        {
            let f = &self.functions[i];
            assert(*f == all[i as int]);
            insert_function(&mut functions, f.name.clone(), info_positions(f));
            i = i + 1;
        }
        let mut j: usize = 0;
        while j < self.procedures.len()
            invariant
                all == self.entries(),
                j <= self.procedures.len(),
                functions_of(functions) == functions_index(all, (self.functions.len() + j) as nat),
            decreases self.procedures.len() - j,
        {
            let f = &self.procedures[j];
            assert(*f == all[self.functions.len() + j]);
            insert_function(&mut functions, f.name.clone(), info_positions(f));
            j = j + 1;
        }
        FunctionArgumentPositions { functions }
    }
}

impl FunctionArgumentPositions {
    /// The index as a map from function name to argument name to position.
    pub closed spec fn view(&self) -> Map<Seq<char>, Map<Seq<char>, u32>> {
        functions_of(self.functions)
    }

    /// The declared position of argument `arg_name` of function `func_name`.
    pub fn get(&self, func_name: &str, arg_name: &str) -> (r: Option<u32>)
        ensures
            r == index_lookup(self@, func_name@, arg_name@),
    {
        if let Some(f) = get_function(&self.functions, func_name) {
            if let Some(a) = get_position(&f.arguments, arg_name) {
                return Some(a);
            }
        }
        None
    }
}

} // verus!
