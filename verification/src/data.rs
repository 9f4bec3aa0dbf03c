//! Bookkeeping for the datasets and coordinates of one backing file.
//!
//! The backing store itself (opening, closing, enumerating) is an
//! external collaborator; this module keeps the names registered so far
//! and, for each, the region descriptor and the dataset facts (shape and
//! declared element kind) that the typed reader works from.

use vstd::prelude::*;

use crate::block::{slice_of, Block};
use crate::errors::ReadError;
use crate::typed::{plan_read, supported_kind, ElementKind, ReadPlan};

verus! {

/// The facts the reader needs about one dataset, as the external
/// handle reports them: its shape and its declared element kind.
#[derive(Debug)]
pub struct DatasetInfo {
    pub shape: Vec<usize>,
    pub kind: ElementKind,
}

/// One registered dataset: its name, the region configured for it, and
/// the dataset facts obtained from the external handle.
#[derive(Debug)]
pub struct Data {
    pub name: String,
    pub block: Block,
    pub info: DatasetInfo,
}

impl Data {
    /// Bundle a dataset's name with its region descriptor and its
    /// reported facts.
    pub fn new(name: String, block: Block, info: DatasetInfo) -> (r: Self)
        ensures
            r.name@ == name@,
            r.block == block,
            r.info == info,
    {
        Self { name, block, info }
    }

    /// Decide how this dataset's configured region is read: a singleton
    /// dataset yields its scalar (the configured region is not applied
    /// to it), anything else goes through the validated region's native
    /// selection.
    pub fn read_data(&self) -> (r: Result<ReadPlan, ReadError>)
        ensures
            self.info.shape@ == seq![1usize] ==> (match supported_kind(self.info.kind) {
                Some(k) => r matches Ok(p) && p == ReadPlan::Scalar(k),
                None => r == Err::<ReadPlan, _>(ReadError::UnsupportedElementKind),
            }),
            self.info.shape@ != seq![1usize] ==> (match supported_kind(self.info.kind) {
                None => r == Err::<ReadPlan, _>(ReadError::UnsupportedElementKind),
                Some(k) => {
                    if !self.block.is_validated() {
                        r == Err::<ReadPlan, _>(ReadError::NotValidated)
                    } else {
                        r matches Ok(p) && (p matches ReadPlan::Region(k2, sel) && k2 == k
                            && sel@.len() == self.block@.len() && (forall|i: int|
                            0 <= i < self.block@.len() ==> ((#[trigger] self.block@[i]) matches Some(
                                m,
                            ) && sel@[i] == slice_of(m))))
                    }
                },
            }),
    {
        let single = crate::typed::is_single(self.info.shape.as_slice());
        if single {
            plan_read(self.info.shape.as_slice(), &self.info.kind, None)
        } else {
            plan_read(self.info.shape.as_slice(), &self.info.kind, Some(&self.block))
        }
    }
}

/// The models of a sequence of name-to-`Data` pairs: each name as its
/// characters.
pub open spec fn pairs_view(s: Seq<(String, Data)>) -> Seq<(Seq<char>, Data)> {
    s.map(|_i: int, p: (String, Data)| (p.0@, p.1))
}

/// First position of `key` among the pairs, or the sequence's length
/// where no pair carries it.
pub open spec fn key_index(s: Seq<(Seq<char>, Data)>, key: Seq<char>) -> int
    decreases s.len(),
{
    if s.len() == 0 {
        0
    } else if s[0].0 == key {
        0
    } else {
        1 + key_index(s.skip(1), key)
    }
}

/// Is `key` the name of one of the pairs?
pub open spec fn has_key(s: Seq<(Seq<char>, Data)>, key: Seq<char>) -> bool {
    key_index(s, key) < s.len()
}

/// What `key_index` finds: the first pair carrying the key, with none
/// before it; or, where the key is absent, no pair at all.
pub proof fn lemma_key_index(s: Seq<(Seq<char>, Data)>, key: Seq<char>)
    ensures
        0 <= key_index(s, key) <= s.len(),
        key_index(s, key) < s.len() ==> s[key_index(s, key)].0 == key,
        forall|j: int| 0 <= j < key_index(s, key) ==> (#[trigger] s[j]).0 != key,
        key_index(s, key) == s.len() ==> (forall|j: int|
            0 <= j < s.len() ==> (#[trigger] s[j]).0 != key),
    decreases s.len(),
{
    if s.len() == 0 {
    } else if s[0].0 == key {
    } else {
        lemma_key_index(s.skip(1), key);
        assert forall|j: int| 0 < j < s.len() implies s.skip(1)[j - 1] == s[j] by {}
    }
}

/// The registered contents of one backing file: its name, the dataset
/// and coordinate names added so far, and for each added name the
/// `Data` it maps to. Names map to at most one `Data` each.
#[derive(Debug)]
pub struct H5File {
    filename: String,
    variables: Vec<String>,
    coords: Vec<String>,
    datasets: Vec<(String, Data)>,
}

impl H5File {
    #[verifier::type_invariant]
    spec fn type_inv(self) -> bool {
        forall|i: int, j: int|
            0 <= i < j < self.datasets@.len() ==> (#[trigger] self.datasets@[i]).0@ != (
            #[trigger] self.datasets@[j]).0@
    }

    /// The backing file's name.
    pub closed spec fn filename_spec(self) -> Seq<char> {
        self.filename@
    }

    /// The dataset names registered through [`H5File::add_dataset`], in
    /// order of addition.
    pub closed spec fn variables_spec(self) -> Seq<Seq<char>> {
        self.variables@.map(|_i: int, s: String| s@)
    }

    /// The coordinate names registered through
    /// [`H5File::add_coordinate`], in order of addition.
    pub closed spec fn coords_spec(self) -> Seq<Seq<char>> {
        self.coords@.map(|_i: int, s: String| s@)
    }

    /// The name-to-`Data` pairs registered so far.
    pub closed spec fn datasets_spec(self) -> Seq<(Seq<char>, Data)> {
        pairs_view(self.datasets@)
    }

    /// Start bookkeeping for the file of the given name, with nothing
    /// registered yet. Opening the backing file itself is the external
    /// collaborator's affair.
    pub fn new(filename: &str) -> (r: Self)
        ensures
            r.filename_spec() == filename@,
            r.variables_spec() == Seq::<Seq<char>>::empty(),
            r.coords_spec() == Seq::<Seq<char>>::empty(),
            r.datasets_spec() == Seq::<(Seq<char>, Data)>::empty(),
    {
        let r = Self {
            filename: filename.to_owned(),
            variables: Vec::new(),
            coords: Vec::new(),
            datasets: Vec::new(),
        };
        proof {
            assert(r.variables_spec() =~= Seq::<Seq<char>>::empty());
            assert(r.coords_spec() =~= Seq::<Seq<char>>::empty());
            assert(r.datasets_spec() =~= Seq::<(Seq<char>, Data)>::empty());
        }
        r
    }

    /// Register a coordinate: record its name among the coordinates and
    /// map the name to its `Data`, replacing what an earlier addition
    /// mapped it to.
    pub fn add_coordinate(&mut self, name: &str, block: Block, info: DatasetInfo)
        ensures
            final(self).filename_spec() == old(self).filename_spec(),
            final(self).variables_spec() == old(self).variables_spec(),
            final(self).coords_spec() == old(self).coords_spec().push(name@),
            datasets_updated(old(self).datasets_spec(), final(self).datasets_spec(), name@, block, info),
    {
        proof {
            use_type_invariant(&*self);
        }
        let mut coords: Vec<String> = Vec::new();
        std::mem::swap(&mut coords, &mut self.coords);
        coords.push(name.to_owned());
        self.coords = coords;
        let data = Data::new(name.to_owned(), block, info);
        self.insert_data(name, data);
        proof {
            assert(self.coords_spec() =~= old(self).coords_spec().push(name@));
        }
    }

    /// Register a dataset: record its name among the variables and map
    /// the name to its `Data`, replacing what an earlier addition mapped
    /// it to.
    pub fn add_dataset(&mut self, name: &str, block: Block, info: DatasetInfo)
        ensures
            final(self).filename_spec() == old(self).filename_spec(),
            final(self).coords_spec() == old(self).coords_spec(),
            final(self).variables_spec() == old(self).variables_spec().push(name@),
            datasets_updated(old(self).datasets_spec(), final(self).datasets_spec(), name@, block, info),
    {
        proof {
            use_type_invariant(&*self);
        }
        let mut variables: Vec<String> = Vec::new();
        std::mem::swap(&mut variables, &mut self.variables);
        variables.push(name.to_owned());
        self.variables = variables;
        let data = Data::new(name.to_owned(), block, info);
        self.insert_data(name, data);
        proof {
            assert(self.variables_spec() =~= old(self).variables_spec().push(name@));
        }
    }

    /// The dataset names registered so far, in order of addition.
    pub fn variables(&self) -> (r: &Vec<String>)
        ensures
            r@.map(|_i: int, s: String| s@) == self.variables_spec(),
    {
        &self.variables
    }

    /// The coordinate names registered so far, in order of addition.
    pub fn coords(&self) -> (r: &Vec<String>)
        ensures
            r@.map(|_i: int, s: String| s@) == self.coords_spec(),
    {
        &self.coords
    }

    /// The `Data` a name maps to: the first pair registered under it,
    /// or `None` where the name was never added.
    pub fn get_dataset(&self, name: &str) -> (r: Option<&Data>)
        ensures
            has_key(self.datasets_spec(), name@) ==> (r matches Some(d) && *d == self.datasets_spec()[
                key_index(self.datasets_spec(), name@)
            ].1),
            !has_key(self.datasets_spec(), name@) ==> r is None,
    {
        proof {
            lemma_key_index(self.datasets_spec(), name@);
        }
        let ghost ds = self.datasets_spec();
        let owned: String = name.to_owned();
        let len = self.datasets.len();
        let mut i: usize = 0;
        while i < len
            invariant
                0 <= i <= len,
                len == self.datasets@.len(),
                ds == self.datasets_spec(),
                owned@ == name@,
                forall|j: int| 0 <= j < i ==> (#[trigger] ds[j]).0 != name@,
            decreases len - i,
        {
            if self.datasets[i].0 == owned {
                proof {
                    assert(ds[i as int].0 == name@);
                    lemma_key_index(ds, name@);
                    if key_index(ds, name@) < i {
                        assert(ds[key_index(ds, name@)].0 == name@);
                    }
                    assert(key_index(ds, name@) == i);
                }
                return Some(&self.datasets[i].1);
            }
            i += 1;
        }
        proof {
            lemma_key_index(ds, name@);
        }
        None
    }

    /// Map `name` to `data`: replace the pair an earlier addition put
    /// there, or append a new one.
    fn insert_data(&mut self, name: &str, data: Data)
        requires
            data.name@ == name@,
        ensures
            final(self).filename == old(self).filename,
            final(self).variables == old(self).variables,
            final(self).coords == old(self).coords,
            datasets_updated(
                old(self).datasets_spec(),
                final(self).datasets_spec(),
                name@,
                data.block,
                data.info,
            ),
    {
        proof {
            use_type_invariant(&*self);
            lemma_key_index(self.datasets_spec(), name@);
        }
        let ghost ds = self.datasets_spec();
        let mut datasets: Vec<(String, Data)> = Vec::new();
        std::mem::swap(&mut datasets, &mut self.datasets);
        let owned: String = name.to_owned();
        let len = datasets.len();
        let mut found: Option<usize> = None;
        let mut i: usize = 0;
        while i < len
            invariant
                0 <= i <= len,
                len == datasets@.len(),
                ds == pairs_view(datasets@),
                owned@ == name@,
                match found {
                    Some(k) => 0 <= k < i && ds[k as int].0 == name@ && (forall|j: int|
                        0 <= j < k ==> (#[trigger] ds[j]).0 != name@),
                    None => forall|j: int| 0 <= j < i ==> (#[trigger] ds[j]).0 != name@,
                },
            decreases len - i,
        {
            if found.is_none() && datasets[i].0 == owned {
                proof {
                    assert(ds[i as int].0 == name@);
                }
                found = Some(i);
            }
            i += 1;
        }
        match found {
            Some(k) => {
                proof {
                    lemma_key_index(ds, name@);
                    if key_index(ds, name@) < k {
                        assert(ds[key_index(ds, name@)].0 == name@);
                    }
                    assert(key_index(ds, name@) == k);
                }
                datasets.remove(k);
                datasets.insert(k, (owned, data));
                proof {
                    assert(pairs_view(datasets@) =~= ds.update(k as int, (name@, data)));
                    assert forall|a: int, b: int|
                        0 <= a < b < datasets@.len() implies (#[trigger] datasets@[a]).0@ != (
                    #[trigger] datasets@[b]).0@ by {
                        assert(pairs_view(datasets@)[a].0 == datasets@[a].0@);
                        assert(pairs_view(datasets@)[b].0 == datasets@[b].0@);
                        assert(ds[a].0 == old(self).datasets@[a].0@);
                        assert(ds[b].0 == old(self).datasets@[b].0@);
                    }
                }
                self.datasets = datasets;
                proof {
                    assert(self.datasets_spec() =~= ds.update(k as int, (name@, data)));
                }
            },
            None => {
                proof {
                    lemma_key_index(ds, name@);
                    assert(key_index(ds, name@) == ds.len());
                }
                datasets.push((owned, data));
                proof {
                    assert(pairs_view(datasets@) =~= ds.push((name@, data)));
                    assert forall|a: int, b: int|
                        0 <= a < b < datasets@.len() implies (#[trigger] datasets@[a]).0@ != (
                    #[trigger] datasets@[b]).0@ by {
                        assert(pairs_view(datasets@)[a].0 == datasets@[a].0@);
                        assert(pairs_view(datasets@)[b].0 == datasets@[b].0@);
                        if b < ds.len() {
                            assert(ds[a].0 == old(self).datasets@[a].0@);
                            assert(ds[b].0 == old(self).datasets@[b].0@);
                        } else {
                            assert(ds[a].0 != name@);
                        }
                    }
                }
                self.datasets = datasets;
                proof {
                    assert(self.datasets_spec() =~= ds.push((name@, data)));
                }
            },
        }
    }
}

/// How one addition changes the name-to-`Data` pairs: the first pair
/// already carrying the name is replaced, or a new pair is appended,
/// and the pair's `Data` holds exactly the name, descriptor and dataset
/// facts that were handed in.
pub open spec fn datasets_updated(
    before: Seq<(Seq<char>, Data)>,
    after: Seq<(Seq<char>, Data)>,
    name: Seq<char>,
    block: Block,
    info: DatasetInfo,
) -> bool {
    let k = key_index(before, name);
    &&& (has_key(before, name) ==> after.len() == before.len() && (forall|j: int|
        0 <= j < before.len() && j != k ==> after[j] == before[j]))
    &&& (!has_key(before, name) ==> after.len() == before.len() + 1 && (forall|j: int|
        0 <= j < before.len() ==> after[j] == before[j]))
    &&& {
        let idx = if has_key(before, name) {
            k
        } else {
            before.len() as int
        };
        &&& after[idx].0 == name
        &&& after[idx].1.name@ == name
        &&& after[idx].1.block == block
        &&& after[idx].1.info == info
    }
}

} // verus!
