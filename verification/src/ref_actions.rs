use vstd::prelude::*;

verus! {

/// Reads and writes DataRefs whose element type is not known in advance.
pub struct RefActions {}

/// A DataRef value of one of the scalar types X-Plane offers. Floats travel
/// as their IEEE-754 bit patterns.
#[derive(Clone, Copy, Debug, PartialEq, Eq, Structural)]
pub enum DataValue {
    Bool(bool),
    F32(u32),
    F64(u64),
    I8(i8),
    I16(i16),
    I32(i32),
    U8(u8),
    U16(u16),
    U32(u32),
}

/// The scalar element types, one for each variant of `DataValue`.
#[derive(Clone, Copy, Debug, PartialEq, Eq, Structural)]
pub enum DataKind {
    Bool,
    F32,
    F64,
    I8,
    I16,
    I32,
    U8,
    U16,
    U32,
}

/// The next thing `get_ref` does: look the DataRef up as one more element
/// type, or finish with what it found.
#[derive(Clone, Copy, Debug, PartialEq, Eq, Structural)]
pub enum GetRefStep {
    Probe(DataKind),
    Done(Option<DataValue>),
}

/// The element type of a value.
pub open spec fn kind_of(v: DataValue) -> DataKind {
    match v {
        DataValue::Bool(_) => DataKind::Bool,
        DataValue::F32(_) => DataKind::F32,
        DataValue::F64(_) => DataKind::F64,
        DataValue::I8(_) => DataKind::I8,
        DataValue::I16(_) => DataKind::I16,
        DataValue::I32(_) => DataKind::I32,
        DataValue::U8(_) => DataKind::U8,
        DataValue::U16(_) => DataKind::U16,
        DataValue::U32(_) => DataKind::U32,
    }
}

/// The element type of a value is the one its variant names, so values of
/// different variants have different element types.
pub proof fn lemma_kind_is_variant(v: DataValue, w: DataValue)
    ensures
        v is Bool <==> kind_of(v) == DataKind::Bool,
        v is F32 <==> kind_of(v) == DataKind::F32,
        v is F64 <==> kind_of(v) == DataKind::F64,
        v is I8 <==> kind_of(v) == DataKind::I8,
        v is I16 <==> kind_of(v) == DataKind::I16,
        v is I32 <==> kind_of(v) == DataKind::I32,
        v is U8 <==> kind_of(v) == DataKind::U8,
        v is U16 <==> kind_of(v) == DataKind::U16,
        v is U32 <==> kind_of(v) == DataKind::U32,
        kind_of(v) == kind_of(w) ==> (v is Bool && w is Bool) || (v is F32 && w is F32) || (
        v is F64 && w is F64) || (v is I8 && w is I8) || (v is I16 && w is I16) || (v is I32
            && w is I32) || (v is U8 && w is U8) || (v is U16 && w is U16) || (v is U32 && w is U32),
{
}

/// The order in which `get_ref` tries the element types.
pub open spec fn probe_order() -> Seq<DataKind> {
    seq![
        DataKind::F32,
        DataKind::F64,
        DataKind::I32,
        DataKind::I16,
        DataKind::U32,
        DataKind::U16,
        DataKind::U8,
        DataKind::I8,
        DataKind::Bool,
    ]
}

/// The position of `k` in `probe_order`.
pub open spec fn probe_index(k: DataKind) -> int {
    match k {
        DataKind::F32 => 0,
        DataKind::F64 => 1,
        DataKind::I32 => 2,
        DataKind::I16 => 3,
        DataKind::U32 => 4,
        DataKind::U16 => 5,
        DataKind::U8 => 6,
        DataKind::I8 => 7,
        DataKind::Bool => 8,
    }
}

/// What `get_ref` does after looking the DataRef up as `kind` with outcome
/// `found`: a value found ends the search with it; otherwise the next type in
/// the order is tried, and after the last one the search ends with nothing.
pub open spec fn get_ref_step(kind: DataKind, found: Option<DataValue>) -> GetRefStep {
    match found {
        Some(v) => GetRefStep::Done(Some(v)),
        None => if probe_index(kind) + 1 < probe_order().len() {
            GetRefStep::Probe(probe_order()[probe_index(kind) + 1])
        } else {
            GetRefStep::Done(None)
        },
    }
}

impl DataValue {
    /// The element type of this value: the type `write_ref` writes it as.
    pub fn kind(&self) -> (k: DataKind)
        ensures
            k == kind_of(*self),
    {
        match self {
            DataValue::Bool(_) => DataKind::Bool,
            DataValue::F32(_) => DataKind::F32,
            DataValue::F64(_) => DataKind::F64,
            DataValue::I8(_) => DataKind::I8,
            DataValue::I16(_) => DataKind::I16,
            DataValue::I32(_) => DataKind::I32,
            DataValue::U8(_) => DataKind::U8,
            DataValue::U16(_) => DataKind::U16,
            DataValue::U32(_) => DataKind::U32,
        }
    }
}

impl RefActions {
    pub fn new() -> (r: Self) {
        Self {  }
    }

    /// The first step of `get_ref`: look the DataRef up as an `f32`.
    pub fn get_ref_start(&self) -> (s: GetRefStep)
        ensures
            s == GetRefStep::Probe(probe_order()[0]),
    {
        GetRefStep::Probe(DataKind::F32)
    }

    /// The step of `get_ref` that follows looking the DataRef up as `kind`
    /// with outcome `found`.
    pub fn get_ref_next(&self, kind: DataKind, found: Option<DataValue>) -> (s: GetRefStep)
        ensures
            s == get_ref_step(kind, found),
    {
        match found {
            Some(v) => GetRefStep::Done(Some(v)),
            None => match kind {
                DataKind::F32 => GetRefStep::Probe(DataKind::F64),
                DataKind::F64 => GetRefStep::Probe(DataKind::I32),
                DataKind::I32 => GetRefStep::Probe(DataKind::I16),
                DataKind::I16 => GetRefStep::Probe(DataKind::U32),
                DataKind::U32 => GetRefStep::Probe(DataKind::U16),
                DataKind::U16 => GetRefStep::Probe(DataKind::U8),
                DataKind::U8 => GetRefStep::Probe(DataKind::I8),
                DataKind::I8 => GetRefStep::Probe(DataKind::Bool),
                DataKind::Bool => GetRefStep::Done(None),
            },
        }
    }

    /// The element type whose writability `is_writeable` checks: that of the
    /// value `get_ref` found; with none found the DataRef is not writeable.
    pub fn writability_probe(&self, current: Option<DataValue>) -> (k: Option<DataKind>)
        ensures
            current matches Some(DataValue::F32(_)) ==> k == Some(DataKind::F32),
            current matches Some(DataValue::F64(_)) ==> k == Some(DataKind::F64),
            k == match current {
                Some(v) => Some(kind_of(v)),
                None => None::<DataKind>,
            },
    {
        match current {
            Some(v) => Some(v.kind()),
            None => None,
        }
    }
}

/// The outcome of running `get_ref`'s steps from the `k`-th type of the
/// order on, when looking the DataRef up as a type `t` gives `found(t)`.
pub open spec fn get_ref_run(found: spec_fn(DataKind) -> Option<DataValue>, k: nat) -> Option<
    DataValue,
>
    decreases 9 - k,
{
    if k >= 9 {
        None
    } else {
        match get_ref_step(probe_order()[k as int], found(probe_order()[k as int])) {
            GetRefStep::Done(r) => r,
            GetRefStep::Probe(_) => get_ref_run(found, k + 1),
        }
    }
}

/// `get_ref` gives the value of the first element type in the order
/// f32, f64, i32, i16, u32, u16, u8, i8, bool as which the DataRef is found,
/// and nothing when it is found as none of them.
pub proof fn lemma_get_ref_finds_first(found: spec_fn(DataKind) -> Option<DataValue>)
    ensures
        get_ref_run(found, 0) is None <==> forall|k: int|
            0 <= k < 9 ==> #[trigger] found(probe_order()[k]) is None,
        get_ref_run(found, 0) is Some ==> exists|k: int|
            0 <= k < 9 && found(probe_order()[k]) == get_ref_run(found, 0) && forall|j: int|
                0 <= j < k ==> #[trigger] found(probe_order()[j]) is None,
{
    lemma_get_ref_run_from(found, 0);
}

proof fn lemma_get_ref_run_from(found: spec_fn(DataKind) -> Option<DataValue>, i: nat)
    requires
        i <= 9,
    ensures
        get_ref_run(found, i) is None <==> forall|k: int|
            i <= k < 9 ==> #[trigger] found(probe_order()[k]) is None,
        get_ref_run(found, i) is Some ==> exists|k: int|
            i <= k < 9 && found(probe_order()[k]) == get_ref_run(found, i) && forall|j: int|
                i <= j < k ==> #[trigger] found(probe_order()[j]) is None,
    decreases 9 - i,
{
    if i < 9 {
        lemma_get_ref_run_from(found, i + 1);
        let t = probe_order()[i as int];
        assert(probe_index(t) == i) by {
            let o = probe_order();
            assert(o[0] == DataKind::F32 && o[1] == DataKind::F64 && o[2] == DataKind::I32);
            assert(o[3] == DataKind::I16 && o[4] == DataKind::U32 && o[5] == DataKind::U16);
            assert(o[6] == DataKind::U8 && o[7] == DataKind::I8 && o[8] == DataKind::Bool);
        }
        if found(t) is Some {
            assert(found(probe_order()[i as int]) == get_ref_run(found, i));
        } else {
            if get_ref_run(found, i) is Some {
                let k = choose|k: int|
                    i + 1 <= k < 9 && found(probe_order()[k]) == get_ref_run(found, i + 1) && forall|
                        j: int,
                    | i + 1 <= j < k ==> #[trigger] found(probe_order()[j]) is None;
                assert forall|j: int| i <= j < k implies #[trigger] found(probe_order()[j]) is None by {
                    if j > i {
                    }
                }
            }
        }
    }
}

} // verus!
