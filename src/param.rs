use vstd::prelude::*;

use crate::ieee::{is_finite_pattern, RealBits};
use crate::json::{find_member, first_index, get, lookup, Json};

verus! {

/// One dimension of a parameter space.
#[derive(Debug)]
pub enum Dim {
    Boolean(DimSpec<bool>),
    RealNumber(DimSpecWithBounds<RealBits>),
    Integer(DimSpecWithBounds<i64>),
}

#[derive(Debug)]
pub struct DimSpec<T> {
    pub name: String,
    pub initial_value: T,
}

/// A dimension with bounds. The generator clamps into the closed interval
/// `[min_value_incl, max_value_excl]`, so the upper bound can be reached.
#[derive(Debug)]
pub struct DimSpecWithBounds<T> {
    pub dim_spec: DimSpec<T>,
    pub min_value_incl: T,
    pub max_value_excl: T,
}

impl<T> DimSpecWithBounds<T> {
    pub fn new(name: String, initial_value: T, min_value_incl: T, max_value_excl: T) -> (r:
        DimSpecWithBounds<T>)
        ensures
            r.dim_spec.name == name,
            r.dim_spec.initial_value == initial_value,
            r.min_value_incl == min_value_incl,
            r.max_value_excl == max_value_excl,
    {
        DimSpecWithBounds { dim_spec: DimSpec { name, initial_value }, min_value_incl, max_value_excl }
    }
}

impl Dim {
    pub open spec fn name(self) -> Seq<char> {
        match self {
            Dim::Boolean(d) => d.name@,
            Dim::RealNumber(d) => d.dim_spec.name@,
            Dim::Integer(d) => d.dim_spec.name@,
        }
    }

    /// Bounds and initial value are ordered; real ones are finite.
    pub open spec fn valid(self) -> bool {
        match self {
            Dim::Boolean(_) => true,
            Dim::RealNumber(d) => {
                &&& is_finite_pattern(d.min_value_incl.bits)
                &&& is_finite_pattern(d.max_value_excl.bits)
                &&& is_finite_pattern(d.dim_spec.initial_value.bits)
                &&& d.min_value_incl.less(d.max_value_excl)
                &&& d.min_value_incl.at_most(d.dim_spec.initial_value)
                &&& d.dim_spec.initial_value.at_most(d.max_value_excl)
            },
            Dim::Integer(d) => {
                &&& d.min_value_incl < d.max_value_excl
                &&& d.min_value_incl <= d.dim_spec.initial_value <= d.max_value_excl
            },
        }
    }
}

/// An ordered sequence of dimensions with distinct names.
#[derive(Debug)]
pub struct ParamsSpec {
    pub dims: Vec<Dim>,
}

pub open spec fn dims_valid(dims: Seq<Dim>) -> bool {
    &&& forall|i: int| 0 <= i < dims.len() ==> #[trigger] dims[i].valid()
    &&& forall|i: int, j: int|
        0 <= i < j < dims.len() ==> #[trigger] dims[i].name() != #[trigger] dims[j].name()
}

impl ParamsSpec {
    pub open spec fn valid(&self) -> bool {
        dims_valid(self.dims@)
    }
}

/// The value of one parameter in a candidate.
#[derive(Clone, Copy, Debug, PartialEq, Eq, Structural)]
pub enum ParamValue {
    Bool(bool),
    Real(RealBits),
    Int(i64),
}

/// A named parameter value.
#[derive(Debug)]
pub struct ParamEntry {
    pub name: String,
    pub value: ParamValue,
}

impl ParamEntry {
    pub fn copy(&self) -> (r: ParamEntry)
        ensures
            r == *self,
    {
        ParamEntry { name: self.name.clone(), value: self.value }
    }
}

/// A point of a parameter space: one named value per dimension, in the
/// order of the dimensions.
#[derive(Debug)]
pub struct Candidate {
    pub entries: Vec<ParamEntry>,
}

impl View for Candidate {
    type V = Seq<ParamEntry>;

    open spec fn view(&self) -> Seq<ParamEntry> {
        self.entries@
    }
}

impl Candidate {
    pub fn copy(&self) -> (r: Candidate)
        ensures
            r@ == self@,
    {
        let mut entries: Vec<ParamEntry> = Vec::new();
        let mut i: usize = 0;
        while i < self.entries.len()
            invariant
                i <= self.entries.len(),
                entries@ == self.entries@.subrange(0, i as int),
            decreases self.entries.len() - i,
        {
            entries.push(self.entries[i].copy());
            i = i + 1;
            proof {
                assert(entries@ =~= self.entries@.subrange(0, i as int));
            }
        }
        proof {
            assert(entries@ =~= self.entries@);
        }
        Candidate { entries }
    }
}

/// The entry is named after the dimension and holds a value of its kind.
pub open spec fn entry_fits(e: ParamEntry, d: Dim) -> bool {
    &&& e.name@ == d.name()
    &&& match (d, e.value) {
        (Dim::Boolean(_), ParamValue::Bool(_)) => true,
        (Dim::RealNumber(_), ParamValue::Real(_)) => true,
        (Dim::Integer(_), ParamValue::Int(_)) => true,
        _ => false,
    }
}

/// A candidate has exactly the dimensions of the space, in order.
pub open spec fn conforms(c: Seq<ParamEntry>, dims: Seq<Dim>) -> bool {
    &&& c.len() == dims.len()
    &&& forall|i: int| 0 <= i < c.len() ==> #[trigger] entry_fits(c[i], dims[i])
}

/// A bounded value lies in the closed interval of its dimension.
pub open spec fn entry_in_bounds(e: ParamEntry, d: Dim) -> bool {
    match (d, e.value) {
        (Dim::RealNumber(s), ParamValue::Real(v)) => s.min_value_incl.at_most(v) && v.at_most(
            s.max_value_excl,
        ),
        (Dim::Integer(s), ParamValue::Int(v)) => s.min_value_incl <= v <= s.max_value_excl,
        _ => true,
    }
}

pub open spec fn in_bounds(c: Seq<ParamEntry>, dims: Seq<Dim>) -> bool {
    forall|i: int| 0 <= i < c.len() && i < dims.len() ==> #[trigger] entry_in_bounds(c[i], dims[i])
}

/// The entry holding a dimension's initial value.
pub open spec fn initial_entry(d: Dim) -> ParamEntry {
    match d {
        Dim::Boolean(s) => ParamEntry { name: s.name, value: ParamValue::Bool(s.initial_value) },
        Dim::RealNumber(s) => ParamEntry {
            name: s.dim_spec.name,
            value: ParamValue::Real(s.dim_spec.initial_value),
        },
        Dim::Integer(s) => ParamEntry {
            name: s.dim_spec.name,
            value: ParamValue::Int(s.dim_spec.initial_value),
        },
    }
}

pub open spec fn initial_guess_of(dims: Seq<Dim>) -> Seq<ParamEntry> {
    dims.map_values(|d: Dim| initial_entry(d))
}

/// The initial guess of a valid space has its dimensions and lies in its bounds.
pub proof fn lemma_initial_guess_fits(dims: Seq<Dim>)
    requires
        dims_valid(dims),
    ensures
        conforms(initial_guess_of(dims), dims),
        in_bounds(initial_guess_of(dims), dims),
{
    assert forall|i: int| 0 <= i < dims.len() implies #[trigger] entry_in_bounds(
        initial_guess_of(dims)[i],
        dims[i],
    ) && entry_fits(initial_guess_of(dims)[i], dims[i]) by {
        assert(dims[i].valid());
    }
}

/// Why a parameter-space document was rejected.
#[derive(Debug, PartialEq, Eq)]
pub enum SpecError {
    NotAnObject,
    MissingInitialGuess,
    MissingDefinition,
    BoundsNotArray(String),
    BoundsLength(String),
    BoundsNotNumbers(String),
    InitialGuessMissing(String),
    InitialGuessNotNumber(String),
    NotFinite(String),
    EmptyRange(String),
    InitialOutOfBounds(String),
    DuplicateName(String),
    UnknownInitialGuess(String),
}

pub open spec fn real_dim(name: String, x: RealBits, lo: RealBits, hi: RealBits) -> Result<
    Dim,
    SpecError,
> {
    if !(is_finite_pattern(lo.bits) && is_finite_pattern(hi.bits) && is_finite_pattern(x.bits)) {
        Err(SpecError::NotFinite(name))
    } else if !lo.less(hi) {
        Err(SpecError::EmptyRange(name))
    } else if !(lo.at_most(x) && x.at_most(hi)) {
        Err(SpecError::InitialOutOfBounds(name))
    } else {
        Ok(
            Dim::RealNumber(
                DimSpecWithBounds {
                    dim_spec: DimSpec { name, initial_value: x },
                    min_value_incl: lo,
                    max_value_excl: hi,
                },
            ),
        )
    }
}

/// The dimension described by the `k`-th member of `definition`.
pub open spec fn entry_dim(def: Seq<(String, Json)>, init: Seq<(String, Json)>, k: int) -> Result<
    Dim,
    SpecError,
> {
    let name = def[k].0;
    if first_index(def, name@, k as nat) is Some {
        Err(SpecError::DuplicateName(name))
    } else {
        match def[k].1 {
            Json::Array(bounds) => if bounds@.len() != 2 {
                Err(SpecError::BoundsLength(name))
            } else {
                match (bounds@[0], bounds@[1]) {
                    (Json::Number(lo), Json::Number(hi)) => match lookup(init, name@) {
                        None => Err(SpecError::InitialGuessMissing(name)),
                        Some(Json::Number(x)) => real_dim(name, x, lo, hi),
                        Some(_) => Err(SpecError::InitialGuessNotNumber(name)),
                    },
                    _ => Err(SpecError::BoundsNotNumbers(name)),
                }
            },
            _ => Err(SpecError::BoundsNotArray(name)),
        }
    }
}

/// The dimensions of the first `n` members of `definition`, or the first error.
pub open spec fn dims_prefix(def: Seq<(String, Json)>, init: Seq<(String, Json)>, n: nat) -> Result<
    Seq<Dim>,
    SpecError,
>
    decreases n,
{
    if n == 0 {
        Ok(Seq::empty())
    } else {
        match dims_prefix(def, init, (n - 1) as nat) {
            Err(e) => Err(e),
            Ok(ds) => match entry_dim(def, init, n - 1) {
                Err(e) => Err(e),
                Ok(d) => Ok(ds.push(d)),
            },
        }
    }
}

/// The first of the first `n` initial-guess members that `definition` lacks.
pub open spec fn first_unknown(def: Seq<(String, Json)>, init: Seq<(String, Json)>, n: nat) -> Option<
    String,
>
    decreases n,
{
    if n == 0 {
        None
    } else {
        match first_unknown(def, init, (n - 1) as nat) {
            Some(x) => Some(x),
            None => if first_index(def, init[n - 1].0@, def.len()) is None {
                Some(init[n - 1].0)
            } else {
                None
            },
        }
    }
}

/// What a parameter-space document describes: an object with an
/// `initial_guess` object and a `definition` object of `[lower, upper]` pairs,
/// both with the same names.
pub open spec fn spec_from_json(json: Json) -> Result<Seq<Dim>, SpecError> {
    match json {
        Json::Object(top) => match lookup(top@, "initial_guess"@) {
            Some(Json::Object(init)) => match lookup(top@, "definition"@) {
                Some(Json::Object(def)) => match dims_prefix(def@, init@, def@.len()) {
                    Err(e) => Err(e),
                    Ok(ds) => match first_unknown(def@, init@, init@.len()) {
                        Some(name) => Err(SpecError::UnknownInitialGuess(name)),
                        None => Ok(ds),
                    },
                },
                _ => Err(SpecError::MissingDefinition),
            },
            _ => Err(SpecError::MissingInitialGuess),
        },
        _ => Err(SpecError::NotAnObject),
    }
}

proof fn lemma_first_index_none(members: Seq<(String, Json)>, key: Seq<char>, n: nat)
    requires
        n <= members.len(),
        first_index(members, key, n) is None,
    ensures
        forall|i: int| 0 <= i < n ==> #[trigger] members[i].0@ != key,
    decreases n,
{
    if n > 0 {
        lemma_first_index_none(members, key, (n - 1) as nat);
    }
}

proof fn lemma_dims_prefix_err(
    def: Seq<(String, Json)>,
    init: Seq<(String, Json)>,
    k: nat,
    n: nat,
    e: SpecError,
)
    requires
        k <= n,
        dims_prefix(def, init, k) == Err::<Seq<Dim>, SpecError>(e),
    ensures
        dims_prefix(def, init, n) == Err::<Seq<Dim>, SpecError>(e),
    decreases n - k,
{
    if k < n {
        lemma_dims_prefix_err(def, init, k, (n - 1) as nat, e);
    }
}

proof fn lemma_first_unknown_some(
    def: Seq<(String, Json)>,
    init: Seq<(String, Json)>,
    k: nat,
    n: nat,
)
    requires
        k <= n,
        first_unknown(def, init, k) is Some,
    ensures
        first_unknown(def, init, n) == first_unknown(def, init, k),
    decreases n - k,
{
    if k < n {
        lemma_first_unknown_some(def, init, k, (n - 1) as nat);
    }
}

fn real_dim_exec(name: &String, x: RealBits, lo: RealBits, hi: RealBits) -> (r: Result<
    Dim,
    SpecError,
>)
    ensures
        r == real_dim(*name, x, lo, hi),
{
    if !(lo.is_finite() && hi.is_finite() && x.is_finite()) {
        Err(SpecError::NotFinite(name.clone()))
    } else if !lo.lt(&hi) {
        Err(SpecError::EmptyRange(name.clone()))
    } else if !(lo.le(&x) && x.le(&hi)) {
        Err(SpecError::InitialOutOfBounds(name.clone()))
    } else {
        Ok(Dim::RealNumber(DimSpecWithBounds::new(name.clone(), x, lo, hi)))
    }
}

fn entry_dim_exec(def: &Vec<(String, Json)>, init: &Vec<(String, Json)>, k: usize) -> (r: Result<
    Dim,
    SpecError,
>)
    requires
        k < def.len(),
    ensures
        r == entry_dim(def@, init@, k as int),
{
    let entry = &def[k];
    let name = &entry.0;
    if find_member(def, name, k).is_some() {
        return Err(SpecError::DuplicateName(name.clone()));
    }
    match &entry.1 {
        Json::Array(bounds) => {
            if bounds.len() != 2 {
                return Err(SpecError::BoundsLength(name.clone()));
            }
            match (&bounds[0], &bounds[1]) {
                (Json::Number(lo), Json::Number(hi)) => match get(init, name) {
                    None => Err(SpecError::InitialGuessMissing(name.clone())),
                    Some(Json::Number(x)) => real_dim_exec(name, *x, *lo, *hi),
                    Some(_) => Err(SpecError::InitialGuessNotNumber(name.clone())),
                },
                _ => Err(SpecError::BoundsNotNumbers(name.clone())),
            }
        },
        _ => Err(SpecError::BoundsNotArray(name.clone())),
    }
}

impl Dim {
    pub fn is_valid(&self) -> (r: bool)
        ensures
            r == self.valid(),
    {
        match self {
            Dim::Boolean(_) => true,
            Dim::RealNumber(d) => {
                d.min_value_incl.is_finite() && d.max_value_excl.is_finite()
                    && d.dim_spec.initial_value.is_finite() && d.min_value_incl.lt(&d.max_value_excl)
                    && d.min_value_incl.le(&d.dim_spec.initial_value) && d.dim_spec.initial_value.le(
                    &d.max_value_excl,
                )
            },
            Dim::Integer(d) => {
                d.min_value_incl < d.max_value_excl && d.min_value_incl <= d.dim_spec.initial_value
                    && d.dim_spec.initial_value <= d.max_value_excl
            },
        }
    }

    pub fn name_ref(&self) -> (r: &String)
        ensures
            r@ == self.name(),
    {
        match self {
            Dim::Boolean(d) => &d.name,
            Dim::RealNumber(d) => &d.dim_spec.name,
            Dim::Integer(d) => &d.dim_spec.name,
        }
    }
}

impl ParamsSpec {
    /// Whether every dimension is valid and the names are distinct.
    pub fn is_valid(&self) -> (r: bool)
        ensures
            r == self.valid(),
    {
        let n = self.dims.len();
        let mut j: usize = 0;
        while j < n
            invariant
                j <= n,
                n == self.dims@.len(),
                dims_valid(self.dims@.subrange(0, j as int)),
            decreases n - j,
        {
            let ghost prefix = self.dims@.subrange(0, j as int);
            if !self.dims[j].is_valid() {
                return false;
            }
            let mut i: usize = 0;
            while i < j
                invariant
                    i <= j < n,
                    n == self.dims@.len(),
                    forall|k: int| 0 <= k < i ==> #[trigger] self.dims@[k].name() != self.dims@[j as int].name(),
                decreases j - i,
            {
                if *self.dims[i].name_ref() == *self.dims[j].name_ref() {
                    proof {
                        assert(self.dims@.subrange(0, j as int + 1)[i as int] == self.dims@[i as int]);
                    }
                    return false;
                }
                i = i + 1;
            }
            proof {
                let next = self.dims@.subrange(0, j as int + 1);
                assert forall|a: int, b: int| 0 <= a < b < next.len() implies #[trigger] next[a].name()
                    != #[trigger] next[b].name() by {
                    if b < j {
                        assert(prefix[a] == next[a] && prefix[b] == next[b]);
                    }
                }
                assert forall|a: int| 0 <= a < next.len() implies #[trigger] next[a].valid() by {
                    if a < j {
                        assert(prefix[a] == next[a]);
                    }
                }
            }
            j = j + 1;
        }
        proof {
            assert(self.dims@.subrange(0, n as int) =~= self.dims@);
        }
        true
    }

    /// The candidate made of every dimension's initial value.
    pub fn extract_initial_guess(&self) -> (r: Candidate)
        ensures
            r@ == initial_guess_of(self.dims@),
            conforms(r@, self.dims@),
            self.valid() ==> in_bounds(r@, self.dims@),
    {
        let mut entries: Vec<ParamEntry> = Vec::new();
        let mut i: usize = 0;
        while i < self.dims.len()
            invariant
                i <= self.dims.len(),
                entries@ == initial_guess_of(self.dims@).subrange(0, i as int),
            decreases self.dims.len() - i,
        {
            let entry = match &self.dims[i] {
                Dim::Boolean(s) => ParamEntry {
                    name: s.name.clone(),
                    value: ParamValue::Bool(s.initial_value),
                },
                Dim::RealNumber(s) => ParamEntry {
                    name: s.dim_spec.name.clone(),
                    value: ParamValue::Real(s.dim_spec.initial_value),
                },
                Dim::Integer(s) => ParamEntry {
                    name: s.dim_spec.name.clone(),
                    value: ParamValue::Int(s.dim_spec.initial_value),
                },
            };
            entries.push(entry);
            i = i + 1;
            proof {
                assert(entries@ =~= initial_guess_of(self.dims@).subrange(0, i as int));
            }
        }
        proof {
            assert(entries@ =~= initial_guess_of(self.dims@));
            if self.valid() {
                lemma_initial_guess_fits(self.dims@);
            }
        }
        Candidate { entries }
    }

    /// Reads a parameter space from its JSON document. Every dimension is a
    /// real number, in the order of the `definition` members.
    #[verifier::loop_isolation(false)]
    pub fn from_json(json: Json) -> (r: Result<ParamsSpec, SpecError>)
        ensures
            r matches Ok(s) ==> spec_from_json(json) == Ok::<Seq<Dim>, SpecError>(s.dims@)
                && s.valid(),
            r matches Err(e) ==> spec_from_json(json) == Err::<Seq<Dim>, SpecError>(e),
    {
        let top = match &json {
            Json::Object(m) => m,
            _ => return Err(SpecError::NotAnObject),
        };
        let init_key = "initial_guess".to_owned();
        let init = match get(top, &init_key) {
            Some(Json::Object(m)) => m,
            _ => return Err(SpecError::MissingInitialGuess),
        };
        let def_key = "definition".to_owned();
        let def = match get(top, &def_key) {
            Some(Json::Object(m)) => m,
            _ => return Err(SpecError::MissingDefinition),
        };
        let mut dims: Vec<Dim> = Vec::new();
        let mut k: usize = 0;
        while k < def.len()
            invariant
                k <= def.len(),
                dims_prefix(def@, init@, k as nat) == Ok::<Seq<Dim>, SpecError>(dims@),
                dims@.len() == k,
                forall|i: int| 0 <= i < k ==> #[trigger] dims@[i].name() == def@[i].0@,
                dims_valid(dims@),
            decreases def.len() - k,
        {
            match entry_dim_exec(def, init, k) {
                Err(e) => {
                    proof {
                        lemma_dims_prefix_err(def@, init@, (k + 1) as nat, def@.len(), e);
                    }
                    return Err(e);
                },
                Ok(d) => {
                    proof {
                        lemma_first_index_none(def@, def@[k as int].0@, k as nat);
                    }
                    dims.push(d);
                },
            }
            k = k + 1;
        }
        let mut j: usize = 0;
        while j < init.len()
            invariant
                j <= init.len(),
                first_unknown(def@, init@, j as nat) is None,
            decreases init.len() - j,
        {
            if find_member(def, &init[j].0, def.len()).is_none() {
                proof {
                    lemma_first_unknown_some(def@, init@, (j + 1) as nat, init@.len());
                }
                return Err(SpecError::UnknownInitialGuess(init[j].0.clone()));
            }
            j = j + 1;
        }
        Ok(ParamsSpec { dims })
    }
}

} // verus!
