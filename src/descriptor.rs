//! The table of supported models and matching a model identifier against it.
use vstd::prelude::*;

verus! {

/// `p` is a prefix of `s`.
pub open spec fn is_prefix(p: Seq<char>, s: Seq<char>) -> bool {
    p.len() <= s.len() && s.take(p.len() as int) == p
}

/// Relies on `str::starts_with` with a `&str` pattern: true exactly when
/// `prefix` is a prefix of `s`.
#[verifier::external_body]
pub(crate) fn starts_with(s: &str, prefix: &str) -> (r: bool)
    ensures
        r == is_prefix(prefix@, s@),
{
    s.starts_with(prefix)
}

/// The capability record of one supported model.
#[derive(Clone, Debug)]
pub struct Descriptor {
    /// Model identifiers that start with this belong to the model.
    pub model_number_prefix: String,
    /// Human-readable model name.
    pub name: String,
    /// USB product id of the model's controller.
    pub pid: u16,
    /// Names of the capabilities the model supports.
    pub features: Vec<String>,
}

impl Descriptor {
    /// The placeholder for a controller chosen by product id alone: model
    /// and name "Unknown", with the given capabilities.
    pub fn manual(pid: u16, features: Vec<String>) -> (r: Descriptor)
        ensures
            r.model_number_prefix@ == seq!['U', 'n', 'k', 'n', 'o', 'w', 'n'],
            r.name@ == seq!['U', 'n', 'k', 'n', 'o', 'w', 'n'],
            r.pid == pid,
            r.features@ == features@,
    {
        let unknown = "Unknown";
        proof {
            reveal_strlit("Unknown");
        }
        Descriptor {
            model_number_prefix: unknown.to_owned(),
            name: unknown.to_owned(),
            pid,
            features,
        }
    }
}

/// The descriptor at `i` matches `id` and none before it does.
pub open spec fn is_first_match(table: Seq<Descriptor>, id: Seq<char>, i: int) -> bool {
    &&& 0 <= i < table.len()
    &&& is_prefix(table[i].model_number_prefix@, id)
    &&& forall|j: int| 0 <= j < i ==> !is_prefix(#[trigger] table[j].model_number_prefix@, id)
}

/// No descriptor of the table matches `id`.
pub open spec fn no_match(table: Seq<Descriptor>, id: Seq<char>) -> bool {
    forall|j: int| 0 <= j < table.len() ==> !is_prefix(#[trigger] table[j].model_number_prefix@, id)
}

/// Position of the first descriptor, in table order, whose prefix starts `id`.
pub fn find_index(table: &[Descriptor], id: &str) -> (r: Option<usize>)
    ensures
        r matches Some(i) ==> is_first_match(table@, id@, i as int),
        r is None ==> no_match(table@, id@),
{
    let mut i: usize = 0;
    while i < table.len()
        invariant
            i <= table@.len(),
            forall|j: int| 0 <= j < i ==> !is_prefix(#[trigger] table@[j].model_number_prefix@, id@),
        decreases table@.len() - i,
    {
        if starts_with(id, table[i].model_number_prefix.as_str()) {
            return Some(i);
        }
        i = i + 1;
    }
    None
}

/// The first descriptor, in table order, whose prefix starts `id`; a
/// descriptor that only a longer or later prefix would match is never chosen.
pub fn find<'a>(table: &'a [Descriptor], id: &str) -> (r: Option<&'a Descriptor>)
    ensures
        r is None <==> no_match(table@, id@),
        r matches Some(d) ==> exists|i: int| is_first_match(table@, id@, i) && *d == table@[i],
{
    match find_index(table, id) {
        Some(i) => {
            assert(is_first_match(table@, id@, i as int));
            Some(&table[i])
        },
        None => None,
    }
}

} // verus!
