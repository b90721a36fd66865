use vstd::prelude::*;

use crate::config::ServerConfig;
use crate::dataref::{
    filed_type, empty_brackets, lemma_array_type_filed, lemma_type_map_last_entry_wins, map_string_to_ref_value_type,
    map_string_to_ref_values_type, type_map_entries, type_map_spec, value_type_spec,
    values_type_spec, DataRefInfo, DataRefInfoView, RefValue, RefValues, RefValuesView,
};
use crate::number::{decimal, parse_u16_spec, render_decimal};
use crate::text::{chars_of, string_from_chars};
use ahash::AHashMap;

verus! {

/// The HTTP server's settings.
pub struct Server {
    pub port: u16,
    pub address: String,
}

/// The answer of the health check and of unknown routes.
#[derive(Clone, Debug)]
pub struct GenericResponse {
    pub status: u16,
    pub message: String,
}

/// The answer to reading a scalar DataRef.
#[derive(Clone, Debug)]
pub struct GetRefValueResponse {
    pub status: u16,
    pub message: String,
    pub ref_name: String,
    pub ref_value: RefValue,
}

/// The answer to writing a scalar DataRef.
#[derive(Clone, Debug)]
pub struct SetRefValueResponse {
    pub status: u16,
    pub message: String,
    pub ref_name: String,
    pub ref_value: RefValue,
}

/// The answer to reading an array DataRef.
#[derive(Clone, Debug)]
pub struct GetRefValuesResponse {
    pub status: u16,
    pub message: String,
    pub ref_name: String,
    pub ref_values: RefValues,
}

/// The answer to writing an array DataRef.
#[derive(Clone, Debug)]
pub struct SetRefValuesResponse {
    pub status: u16,
    pub message: String,
    pub ref_name: String,
    pub ref_values: RefValues,
}

/// The answer to listing the known DataRefs.
#[derive(Clone, Debug)]
pub struct AllRefsResponse {
    pub status: u16,
    pub message: String,
    pub refs: Vec<DataRefInfo>,
}

/// How many of `len` entries a listing returns: all of them, or at most
/// `fetch_size` when one is given.
pub open spec fn fetched_count(len: nat, fetch_size: Option<usize>) -> nat {
    match fetch_size {
        Some(k) => if (k as nat) < len {
            k as nat
        } else {
            len
        },
        None => len,
    }
}

/// `host:port`, the address the server binds to.
pub open spec fn listen_address_spec(address: Seq<char>, port: u16) -> Seq<char> {
    address + seq![':'] + decimal(port as nat)
}

/// The element type that a name filed in `entries` is read as, if any.
pub open spec fn resolved_value_type(entries: Map<Seq<char>, Seq<char>>, name: Seq<char>) -> Option<
    RefValue,
> {
    if entries.contains_key(name) {
        value_type_spec(entries[name])
    } else {
        None
    }
}

/// The array type that a name filed in `entries` is read as, if any.
pub open spec fn resolved_values_type(entries: Map<Seq<char>, Seq<char>>, name: Seq<char>) -> Option<
    RefValuesView,
> {
    if entries.contains_key(name) {
        values_type_spec(entries[name])
    } else {
        None
    }
}

impl Server {
    pub fn new(config: ServerConfig) -> (s: Self)
        ensures
            s.port == config.port,
            s.address@ == config.address@,
    {
        Self { port: config.port, address: config.address }
    }

    /// The `host:port` text the server binds its listener to.
    pub fn listen_address(&self) -> (a: String)
        ensures
            a@ == listen_address_spec(self.address@, self.port),
    {
        let mut cs = chars_of(self.address.as_str());
        cs.push(':');
        let mut digits = render_decimal(self.port);
        let ghost head = cs@;
        cs.append(&mut digits);
        assert(cs@ =~= head + decimal(self.port as nat));
        string_from_chars(cs.as_slice())
    }

    /// `GET /api/v1/healthz`: always 200 "OK".
    pub fn health_response() -> (r: GenericResponse)
        ensures
            r.status == 200,
            r.message@ == "OK"@,
    {
        GenericResponse { status: 200, message: "OK".to_owned() }
    }

    /// Any route the server does not know: 404 "not found".
    pub fn fallback_response() -> (r: GenericResponse)
        ensures
            r.status == 404,
            r.message@ == "not found"@,
    {
        GenericResponse { status: 404, message: "not found".to_owned() }
    }

    /// `GET /api/v1/refs/all`: 200 "OK" with the known DataRefs in listing
    /// order, the first `fetch_size` of them when a limit is given.
    pub fn all_refs_response(datarefs: &Vec<DataRefInfo>, fetch_size: Option<usize>) -> (r:
        AllRefsResponse)
        ensures
            r.status == 200,
            r.message@ == "OK"@,
            r.refs@.map_values(|i: DataRefInfo| i@) == datarefs@.map_values(|i: DataRefInfo| i@).take(
                fetched_count(datarefs@.len(), fetch_size) as int,
            ),
    {
        let n = datarefs.len();
        let count: usize = match fetch_size {
            Some(k) => if k < n {
                k
            } else {
                n
            },
            None => n,
        };
        let ghost all = datarefs@.map_values(|i: DataRefInfo| i@);
        let mut refs: Vec<DataRefInfo> = Vec::new();
        for j in 0..count
            invariant
                count <= n,
                n == datarefs@.len(),
                all == datarefs@.map_values(|i: DataRefInfo| i@),
                refs@.map_values(|i: DataRefInfo| i@) == all.take(j as int),
        {
            let ghost before = refs@.map_values(|i: DataRefInfo| i@);
            let e = datarefs[j].duplicate();
            refs.push(e);
            assert(refs@.map_values(|i: DataRefInfo| i@) =~= before.push(all[j as int]));
            assert(all.take(j + 1) =~= all.take(j as int).push(all[j as int]));
        }
        AllRefsResponse { status: 200, message: "OK".to_owned(), refs }
    }

    /// `GET /api/v1/refs/value/get`: 200 "OK" with the value read, or 404
    /// "ref not found" with a float zero when the DataRef could not be read.
    pub fn get_ref_response(ref_name: String, value: Option<RefValue>) -> (r: GetRefValueResponse)
        ensures
            r.ref_name@ == ref_name@,
            value matches Some(v) ==> r.status == 200 && r.message@ == "OK"@ && r.ref_value == v,
            value is None ==> r.status == 404 && r.message@ == "ref not found"@ && r.ref_value
                == RefValue::Float(0),
    {
        match value {
            Some(v) => GetRefValueResponse {
                status: 200,
                message: "OK".to_owned(),
                ref_name,
                ref_value: v,
            },
            None => GetRefValueResponse {
                status: 404,
                message: "ref not found".to_owned(),
                ref_name,
                ref_value: RefValue::Float(0),
            },
        }
    }

    /// `GET /api/v1/refs/values/get`: 200 "OK" with the values read, or 404
    /// "ref not found" with no floats when the DataRef could not be read.
    pub fn get_refs_response(ref_name: String, values: Option<RefValues>) -> (r: GetRefValuesResponse)
        ensures
            r.ref_name@ == ref_name@,
            values matches Some(v) ==> r.status == 200 && r.message@ == "OK"@ && r.ref_values@
                == v@,
            values is None ==> r.status == 404 && r.message@ == "ref not found"@ && r.ref_values@
                == RefValuesView::Floats(seq![]),
    {
        match values {
            Some(v) => GetRefValuesResponse {
                status: 200,
                message: "OK".to_owned(),
                ref_name,
                ref_values: v,
            },
            None => {
                let empty: Vec<u32> = Vec::new();
                GetRefValuesResponse {
                    status: 404,
                    message: "ref not found".to_owned(),
                    ref_name,
                    ref_values: RefValues::Floats(empty),
                }
            },
        }
    }

    /// `POST /api/v1/refs/value/set`: echoes the name and value; 200 "OK"
    /// when the write succeeded, 500 "failed to set ref" when it did not.
    pub fn set_ref_response(ref_name: String, ref_value: RefValue, written: bool) -> (r:
        SetRefValueResponse)
        ensures
            r.ref_name@ == ref_name@,
            r.ref_value == ref_value,
            written ==> r.status == 200 && r.message@ == "OK"@,
            !written ==> r.status == 500 && r.message@ == "failed to set ref"@,
    {
        let status: u16 = if written {
            200
        } else {
            500
        };
        let message = if written {
            "OK".to_owned()
        } else {
            "failed to set ref".to_owned()
        };
        SetRefValueResponse { status, message, ref_name, ref_value }
    }

    /// `POST /api/v1/refs/values/set`: echoes the name and values; 200 "OK"
    /// when the write succeeded, 500 "failed to set ref" when it did not.
    pub fn set_refs_response(ref_name: String, ref_values: RefValues, written: bool) -> (r:
        SetRefValuesResponse)
        ensures
            r.ref_name@ == ref_name@,
            r.ref_values@ == ref_values@,
            written ==> r.status == 200 && r.message@ == "OK"@,
            !written ==> r.status == 500 && r.message@ == "failed to set ref"@,
    {
        let status: u16 = if written {
            200
        } else {
            500
        };
        let message = if written {
            "OK".to_owned()
        } else {
            "failed to set ref".to_owned()
        };
        SetRefValuesResponse { status, message, ref_name, ref_values }
    }

    /// The element type a scalar request for `ref_name` reads, from the type
    /// under which `DataRefs.txt` files that name.
    pub fn value_type_for(types: &AHashMap<String, String>, ref_name: &str) -> (r: Option<RefValue>)
        ensures
            r == resolved_value_type(type_map_entries(*types), ref_name@),
    {
        match crate::dataref::filed_type_of(types, ref_name) {
            Some(t) => map_string_to_ref_value_type(t.as_str()),
            None => None,
        }
    }

    /// The array type an array request for `ref_name` reads, from the type
    /// under which `DataRefs.txt` files that name.
    pub fn values_type_for(types: &AHashMap<String, String>, ref_name: &str) -> (r: Option<RefValues>)
        ensures
            r is Some <==> resolved_values_type(type_map_entries(*types), ref_name@) is Some,
            r matches Some(v) ==> v@ == resolved_values_type(type_map_entries(*types), ref_name@)->0,
    {
        match crate::dataref::filed_type_of(types, ref_name) {
            Some(t) => map_string_to_ref_values_type(t.as_str()),
            None => None,
        }
    }
}

/// The port part of the listen address reads back as the configured port.
pub proof fn lemma_listen_address_port(address: Seq<char>, port: u16)
    ensures
        ({
            let a = listen_address_spec(address, port);
            &&& a[address.len() as int] == ':'
            &&& parse_u16_spec(a.subrange(address.len() as int + 1, a.len() as int)) == Some(port)
        }),
{
    let a = listen_address_spec(address, port);
    assert(a.subrange(address.len() as int + 1, a.len() as int) =~= decimal(port as nat));
    crate::number::lemma_port_round_trip(port);
}

/// A name the type map does not hold is read as no scalar type and no
/// array type.
pub proof fn lemma_unfiled_name_has_no_type(entries: Map<Seq<char>, Seq<char>>, name: Seq<char>)
    requires
        !entries.contains_key(name),
    ensures
        resolved_value_type(entries, name) is None,
        resolved_values_type(entries, name) is None,
{
}

/// A name that no entry of the listing carries is read as no scalar type
/// and no array type.
pub proof fn lemma_unlisted_name_has_no_type(infos: Seq<DataRefInfoView>, name: Seq<char>)
    requires
        forall|i: int| 0 <= i < infos.len() ==> #[trigger] infos[i].ref_name != name,
    ensures
        resolved_value_type(type_map_spec(infos), name) is None,
        resolved_values_type(type_map_spec(infos), name) is None,
{
    crate::dataref::lemma_type_map_names(infos, name);
}

/// A DataRef listed with a scalar type ("float", "double" or "int"), and
/// listed under that name for the last time, is read as that type by scalar
/// requests.
pub proof fn lemma_listed_scalar_type_resolves(infos: Seq<DataRefInfoView>, i: int)
    requires
        0 <= i < infos.len(),
        forall|j: int| i < j < infos.len() ==> #[trigger] infos[j].ref_name != infos[i].ref_name,
        value_type_spec(infos[i].ref_type) is Some,
    ensures
        resolved_value_type(type_map_spec(infos), infos[i].ref_name) == value_type_spec(
            infos[i].ref_type,
        ),
{
    lemma_type_map_last_entry_wins(infos, i);
    let t = infos[i].ref_type;
    reveal_strlit("float");
    reveal_strlit("double");
    reveal_strlit("int");
    assert(!t.contains('['));
    assert(filed_type(t) == t);
}

/// A DataRef listed with an array type "float[size]", "int[size]" or
/// "byte[size]" (the size without line breaks, such as a decimal number), and
/// listed under that name for the last time, is read by array requests as an
/// array of floats, ints or bytes respectively.
pub proof fn lemma_listed_array_type_resolves(
    infos: Seq<DataRefInfoView>,
    i: int,
    base: Seq<char>,
    size: Seq<char>,
)
    requires
        0 <= i < infos.len(),
        forall|j: int| i < j < infos.len() ==> #[trigger] infos[j].ref_name != infos[i].ref_name,
        base == "float"@ || base == "int"@ || base == "byte"@,
        !size.contains('\n'),
        infos[i].ref_type == base + seq!['['] + size + seq![']'],
    ensures
        base == "float"@ ==> resolved_values_type(type_map_spec(infos), infos[i].ref_name) == Some(
            RefValuesView::Floats(seq![]),
        ),
        base == "int"@ ==> resolved_values_type(type_map_spec(infos), infos[i].ref_name) == Some(
            RefValuesView::Ints(seq![]),
        ),
        base == "byte"@ ==> resolved_values_type(type_map_spec(infos), infos[i].ref_name) == Some(
            RefValuesView::Bytes(seq![]),
        ),
{
    lemma_type_map_last_entry_wins(infos, i);
    reveal_strlit("float");
    reveal_strlit("int");
    reveal_strlit("byte");
    reveal_strlit("float[]");
    reveal_strlit("int[]");
    reveal_strlit("byte[]");
    assert(!base.contains('[') && !base.contains('\n'));
    lemma_array_type_filed(base, size);
    let f = base + empty_brackets();
    if base == "float"@ {
        assert(f =~= "float[]"@);
    } else if base == "int"@ {
        assert(f =~= "int[]"@);
        assert(f != "float[]"@) by {
            assert(f.len() != "float[]"@.len());
        }
    } else {
        assert(f =~= "byte[]"@);
        assert(f[0] != "float[]"@[0]);
        assert(f[0] != "int[]"@[0]);
    }
}

} // verus!
