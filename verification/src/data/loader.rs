use vstd::prelude::*;

use crate::data::stats::Stats;
use crate::data::trait_id::TraitId;
use crate::data::unit_definition::{TraitList, UnitDefinition};

verus! {

/// Where the unit data is read from.
pub struct Loader {
    data_path: &'static str,
}

impl View for Loader {
    type V = Seq<char>;

    /// The path of the data file.
    closed spec fn view(&self) -> Seq<char> {
        self.data_path@
    }
}

/// The data of one kind of unit, as the data file writes it.
#[derive(Debug)]
pub struct UnitData {
    pub attack: i64,
    pub defense: i64,
    pub hp: i64,
    pub range: u8,
    pub cost: u8,
    pub traits: Vec<TraitId>,
}

/// The statistics that a data entry describes.
pub open spec fn stats_of(d: UnitData) -> Stats {
    Stats { attack: d.attack, defense: d.defense, max_hp: d.hp, range: d.range, cost: d.cost }
}

/// Whether `j` is the last position among `data` of an entry named `n`.
pub open spec fn is_last_with_name(data: Seq<(String, UnitData)>, j: int, n: Seq<char>) -> bool {
    &&& 0 <= j < data.len()
    &&& data[j].0@ == n
    &&& forall|l: int| j < l < data.len() ==> (#[trigger] data[l]).0@ != n
}

/// Whether no two pairs share a name.
pub open spec fn pairs_unique(pairs: Seq<(String, UnitId)>) -> bool {
    forall|j: int, k: int|
        0 <= j < pairs.len() && 0 <= k < pairs.len() && j != k ==> (#[trigger] pairs[j]).0@ != (
        #[trigger] pairs[k]).0@
}

/// Whether `pairs` maps each name of `data` once, to the identifier of the last
/// entry with that name, as inserting the entries in order into a map does.
pub open spec fn indexes_names(pairs: Seq<(String, UnitId)>, data: Seq<(String, UnitData)>) -> bool {
    &&& pairs_unique(pairs)
    &&& forall|k: int|
        0 <= k < pairs.len() ==> is_last_with_name(data, (#[trigger] pairs[k]).1.index(), pairs[k].0@)
    &&& forall|i: int|
        0 <= i < data.len() ==> exists|k: int|
            0 <= k < pairs.len() && (#[trigger] pairs[k]).0@ == (#[trigger] data[i]).0@
}

/// The registry that the entries `data` describe: the entry at position `i`
/// becomes the unit with identifier `i`, and each name leads to the last entry
/// with that name.
pub open spec fn loaded_from(r: UnitRegistry, data: Seq<(String, UnitData)>) -> bool {
    &&& r.definitions.len() == data.len()
    &&& forall|i: int|
        0 <= i < data.len() ==> {
            &&& (#[trigger] r.definitions[i]).id == UnitId(i as usize)
            &&& r.definitions[i].stats == stats_of(data[i].1)
            &&& r.definitions[i].trait_seq() == data[i].1.traits@
        }
    &&& indexes_names(r.name_to_id@, data)
}

/// What looking `name` up among `pairs` gives: the identifier of the last pair
/// with that name, or `None` when no pair has it.
pub open spec fn lookup_result(pairs: Seq<(String, UnitId)>, name: Seq<char>, r: Option<UnitId>) -> bool {
    match r {
        Some(id) => exists|k: int|
            0 <= k < pairs.len() && (#[trigger] pairs[k]).0@ == name && pairs[k].1 == id && forall|j: int|
                k < j < pairs.len() ==> (#[trigger] pairs[j]).0@ != name,
        None => forall|k: int| 0 <= k < pairs.len() ==> (#[trigger] pairs[k]).0@ != name,
    }
}

/// Whether no two entries share a name.
pub open spec fn names_distinct(data: Seq<(String, UnitData)>) -> bool {
    forall|j: int, k: int|
        0 <= j < data.len() && 0 <= k < data.len() && j != k ==> (#[trigger] data[j]).0@ != (
        #[trigger] data[k]).0@
}

/// In a loaded registry, the name of every entry is found, and leads to the
/// last entry with that name; when no two entries share a name, it leads to
/// the entry itself. The definition at an entry's identifier is built from
/// that entry.
pub proof fn lemma_load_then_lookup(
    data: Seq<(String, UnitData)>,
    reg: UnitRegistry,
    i: int,
    r: Option<UnitId>,
)
    requires
        loaded_from(reg, data),
        0 <= i < data.len(),
        lookup_result(reg.name_to_id@, data[i].0@, r),
    ensures
        r is Some,
        is_last_with_name(data, r->0.index(), data[i].0@),
        names_distinct(data) ==> r == Some(UnitId(i as usize)),
        reg.definitions[i].id == UnitId(i as usize),
        reg.definitions[i].stats == stats_of(data[i].1),
        reg.definitions[i].trait_seq() == data[i].1.traits@,
{
    let pairs = reg.name_to_id@;
    let n = data[i].0@;
    let k0 = choose|k: int| 0 <= k < pairs.len() && (#[trigger] pairs[k]).0@ == (#[trigger] data[i]).0@;
    assert(pairs[k0].0@ == n);
    match r {
        Some(id) => {
            let k = choose|k: int|
                0 <= k < pairs.len() && (#[trigger] pairs[k]).0@ == n && pairs[k].1 == id && forall|j: int|
                    k < j < pairs.len() ==> (#[trigger] pairs[j]).0@ != n;
            assert(is_last_with_name(data, pairs[k].1.index(), pairs[k].0@));
            if names_distinct(data) {
                let j = id.index();
                assert(data[j].0@ == n);
                if j != i {
                    assert(data[j].0@ != data[i].0@);
                }
            }
        },
        None => {
            assert(pairs[k0].0@ != n);
        },
    }
    assert(reg.definitions[i].id == UnitId(i as usize));
}

/// In a loaded registry, a name that no entry has is not found.
pub proof fn lemma_load_lookup_unknown(
    data: Seq<(String, UnitData)>,
    reg: UnitRegistry,
    name: Seq<char>,
    r: Option<UnitId>,
)
    requires
        loaded_from(reg, data),
        forall|i: int| 0 <= i < data.len() ==> (#[trigger] data[i]).0@ != name,
        lookup_result(reg.name_to_id@, name, r),
    ensures
        r == None::<UnitId>,
{
    let pairs = reg.name_to_id@;
    match r {
        Some(id) => {
            let k = choose|k: int|
                0 <= k < pairs.len() && (#[trigger] pairs[k]).0@ == name && pairs[k].1 == id && forall|j: int|
                    k < j < pairs.len() ==> (#[trigger] pairs[j]).0@ != name;
            assert(is_last_with_name(data, pairs[k].1.index(), pairs[k].0@));
            assert(data[pairs[k].1.index()].0@ == name);
        },
        None => {},
    }
}

/// The position of the pair named `name`, if any.
fn position_of(pairs: &Vec<(String, UnitId)>, name: &String) -> (r: Option<usize>)
    ensures
        match r {
            Some(k) => k < pairs.len() && pairs[k as int].0@ == name@,
            None => forall|k: int| 0 <= k < pairs.len() ==> (#[trigger] pairs[k]).0@ != name@,
        },
{
    let mut k: usize = 0;
    while k < pairs.len()
        invariant
            k <= pairs.len(),
            forall|j: int| 0 <= j < k ==> (#[trigger] pairs[j]).0@ != name@,
        decreases pairs.len() - k,
    {
        if pairs[k].0 == *name {
            return Some(k);
        }
        k = k + 1;
    }
    None
}

impl Loader {
    /// A loader for the data file at `data_path`, given whether that file exists.
    ///
    /// Refused, with the path, when the file does not exist.
    pub fn new(data_path: &'static str, file_exists: bool) -> (r: Result<Self, FileNotFoundError>)
        ensures
            match r {
                Ok(loader) => file_exists && loader@ == data_path@,
                Err(e) => !file_exists && e.file_path@ == data_path@,
            },
    {
        if !file_exists {
            return Err(FileNotFoundError { file_path: data_path.to_owned() });
        }
        Ok(Self { data_path })
    }

    /// The path of the data file.
    pub fn data_path(&self) -> (r: &'static str)
        ensures
            r@ == self@,
    {
        self.data_path
    }

    /// Builds the registry from the entries of the data file, in file order:
    /// the entry at position `i` becomes the unit with identifier `i`.
    pub fn load(&self, data: Vec<(String, UnitData)>) -> (r: UnitRegistry)
        ensures
            loaded_from(r, data@),
    {
        let ghost entries = data@;
        let n = data.len();
        let mut definitions: Vec<UnitDefinition> = Vec::with_capacity(n);
        let mut name_to_id: Vec<(String, UnitId)> = Vec::new();

        let mut i: usize = 0;
        for entry in it: data.into_iter()
            invariant
                it.seq() == entries,
                entries.len() == n,
                i == it.index(),
                i <= n,
                definitions.len() == i,
                forall|j: int|
                    0 <= j < i ==> {
                        &&& (#[trigger] definitions[j]).id == UnitId(j as usize)
                        &&& definitions[j].stats == stats_of(entries[j].1)
                        &&& definitions[j].trait_seq() == entries[j].1.traits@
                    },
                indexes_names(name_to_id@, entries.take(i as int)),
        {
            let (k, v) = entry;
            let ghost prev = entries.take(i as int);
            let ghost next = entries.take(i + 1);
            let ghost old_pairs = name_to_id@;
            let ghost name = k@;
            assert(next == prev.push(entries[i as int]));
            assert(entries[i as int].0@ == name);

            let stats = Stats {
                attack: v.attack,
                defense: v.defense,
                max_hp: v.hp,
                range: v.range,
                cost: v.cost,
            };

            let unit_id = UnitId(i);

            let ghost mut at: int = 0;
            match position_of(&name_to_id, &k) {
                Some(p) => {
                    name_to_id.set(p, (k, unit_id));
                    proof {
                        at = p as int;
                    }
                },
                None => {
                    name_to_id.push((k, unit_id));
                    proof {
                        at = old_pairs.len() as int;
                    }
                },
            }
            proof {
                let pairs = name_to_id@;
                assert forall|q: int| 0 <= q < pairs.len() implies is_last_with_name(
                    next,
                    (#[trigger] pairs[q]).1.index(),
                    pairs[q].0@,
                ) by {
                    if pairs[q].0@ != name {
                        assert(pairs[q] == old_pairs[q]);
                        assert(is_last_with_name(prev, old_pairs[q].1.index(), old_pairs[q].0@));
                    }
                }
                assert forall|x: int| 0 <= x < next.len() implies exists|q: int|
                    0 <= q < pairs.len() && (#[trigger] pairs[q]).0@ == (#[trigger] next[x]).0@ by {
                    if x < i {
                        assert(next[x] == prev[x]);
                        let q = choose|q: int|
                            0 <= q < old_pairs.len() && (#[trigger] old_pairs[q]).0@ == (#[trigger] prev[x]).0@;
                        assert(pairs[q].0@ == old_pairs[q].0@);
                    } else {
                        assert(pairs[at].0@ == next[x].0@);
                    }
                }
            }
            definitions.push(UnitDefinition { id: unit_id, stats, traits: TraitList::from_vec(v.traits) });
            i = i + 1;
        }
        assert(entries.take(n as int) == entries);

        UnitRegistry { definitions, name_to_id }
    }
}

/// The identifier of a kind of unit: its position in the registry.
#[derive(Debug, Clone, Copy, PartialEq, Eq, Hash, Structural)]
pub struct UnitId(pub usize);

impl UnitId {
    /// The position that the identifier stands for.
    pub open spec fn index(self) -> int {
        self.0 as int
    }
}

/// All kinds of units, and the identifier of each name.
pub struct UnitRegistry {
    pub definitions: Vec<UnitDefinition>,
    /// Each name, once, with its identifier; a name that several entries share
    /// leads to the last of them.
    pub name_to_id: Vec<(String, UnitId)>,
}

/// The pairs of names and identifiers, shown as a map.
struct NameMap<'a> {
    pairs: &'a Vec<(String, UnitId)>,
}

impl<'a> std::fmt::Debug for NameMap<'a> {
    /// Shows each pair as a map entry, through `Formatter::debug_map`.
    #[verifier::external_body]
    fn fmt(&self, f: &mut std::fmt::Formatter<'_>) -> std::fmt::Result {
        f.debug_map().entries(self.pairs.iter().map(|(name, id)| (name, id))).finish()
    }
}

impl std::fmt::Debug for UnitRegistry {
    /// Shows the registry through `Formatter::debug_struct`, with the names as a map.
    #[verifier::external_body]
    fn fmt(&self, f: &mut std::fmt::Formatter<'_>) -> std::fmt::Result {
        f.debug_struct("UnitRegistry")
            .field("definitions", &self.definitions)
            .field("name_to_id", &NameMap { pairs: &self.name_to_id })
            .finish()
    }
}

impl UnitRegistry {
    /// The identifier of the unit named `name`: that of the last entry with
    /// this name, or `None` when no entry has it.
    pub fn id_of(&self, name: &str) -> (r: Option<UnitId>)
        ensures
            lookup_result(self.name_to_id@, name@, r),
    {
        let key = name.to_owned();
        let mut i: usize = self.name_to_id.len();
        while i > 0
            invariant
                i <= self.name_to_id.len(),
                key@ == name@,
                forall|j: int| i <= j < self.name_to_id.len() ==> (#[trigger] self.name_to_id[j]).0@ != name@,
            decreases i,
        {
            i = i - 1;
            if self.name_to_id[i].0 == key {
                return Some(self.name_to_id[i].1);
            }
        }
        None
    }
}

/// The error of a data file that does not exist; it keeps the path.
#[derive(Debug)]
pub struct FileNotFoundError {
    pub file_path: String,
}

impl FileNotFoundError {
    /// The message that describes the error.
    pub fn message(&self) -> (r: String)
        ensures
            r@ == "unable to find unit data file at path \""@ + self.file_path@ + "\""@,
    {
        let mut m = "unable to find unit data file at path \"".to_owned();
        m.append(self.file_path.as_str());
        m.append("\"");
        m
    }
}

} // verus!
