//! Vectors: the typed upsert payload. Vector data and metadata are carried
//! as the raw JSON text of the request; the numeric contents belong to the
//! index backend, not to the replication core.

use vstd::prelude::*;
use crate::json::find_object_field;
use crate::json::skip_json_value;
use crate::json::skip_ws;
use crate::json::subrange_vec;
use crate::text::chars_vec;
use crate::text::parse_u64_range;

verus! {

/// One vector to insert or replace: its key, the raw text of its data array
/// and the raw text of its metadata object.
pub struct VectorInsert {
    pub id: u64,
    pub data: Vec<char>,
    pub metadata: Vec<char>,
}

#[verifier::ext_equal]
pub struct VectorInsertView {
    pub id: u64,
    pub data: Seq<char>,
    pub metadata: Seq<char>,
}

impl View for VectorInsert {
    type V = VectorInsertView;

    open spec fn view(&self) -> VectorInsertView {
        VectorInsertView { id: self.id, data: self.data@, metadata: self.metadata@ }
    }
}

/// Reads one element of the `vectors` array: an object with a required
/// numeric `id`, and optional `data` and `metadata` whose raw text is kept.
/// What one element of the `vectors` array reads as: the required numeric
/// `id`, and the raw text of `data` and `metadata` (empty when absent).
pub open spec fn spec_parse_insert(elem: Seq<char>) -> Option<VectorInsertView> {
    match crate::json::find_field_spec(elem, "id"@) {
        None => None,
        Some((s, e)) => match crate::json::num_extent(elem, s, e) {
            None => None,
            Some(id) => Some(
                VectorInsertView {
                    id,
                    data: crate::json::spec_raw_field(elem, "data"@),
                    metadata: crate::json::spec_raw_field(elem, "metadata"@),
                },
            ),
        },
    }
}

fn parse_vector_insert(elem: &Vec<char>) -> (r: Option<VectorInsert>)
    ensures
        match r {
            Some(ins) => spec_parse_insert(elem@) == Some(ins@),
            None => spec_parse_insert(elem@) is None,
        },
{
    let id_key = chars_vec("id");
    let id = match find_object_field(elem, &id_key) {
        Some((s, e)) => match parse_u64_range(elem, s, e) {
            Some(n) => n,
            None => {
                return None;
            },
        },
        None => {
            return None;
        },
    };
    let data_key = chars_vec("data");
    let data = match find_object_field(elem, &data_key) {
        Some((s, e)) => subrange_vec(elem, s, e),
        None => Vec::new(),
    };
    let meta_key = chars_vec("metadata");
    let metadata = match find_object_field(elem, &meta_key) {
        Some((s, e)) => subrange_vec(elem, s, e),
        None => Vec::new(),
    };
    Some(VectorInsert { id, data, metadata })
}

/// One array element after another, each read whole, until the closing
/// bracket; mirrors the scan below it.
pub open spec fn spec_parse_elems(v: Seq<char>, i: int) -> Option<Seq<VectorInsertView>>
    decreases v.len() - i,
    when 0 <= i
{
    if i >= v.len() {
        None
    } else {
        match crate::json::skip_value_spec(v, i) {
            None => None,
            Some(ee) => if !(i < ee <= v.len()) {
                None
            } else {
                match spec_parse_insert(v.subrange(i, ee)) {
                    None => None,
                    Some(ins) => {
                        let j = crate::json::skip_ws_spec(v, ee);
                        if j >= v.len() {
                            None
                        } else if v[j] == ']' {
                            Some(seq![ins])
                        } else if v[j] != ',' {
                            None
                        } else {
                            let i2 = crate::json::skip_ws_spec(v, j + 1);
                            if i2 <= i || i2 > v.len() {
                                None
                            } else {
                                match spec_parse_elems(v, i2) {
                                    None => None,
                                    Some(rest) => Some(seq![ins] + rest),
                                }
                            }
                        }
                    },
                }
            },
        }
    }
}

/// What an upsert payload reads as: the elements of its `vectors` array,
/// every one carrying a numeric `id`.
pub open spec fn spec_parse_vectors(v: Seq<char>) -> Option<Seq<VectorInsertView>> {
    match crate::json::find_field_spec(v, "vectors"@) {
        None => None,
        Some((s, e)) => if v[s] != '[' {
            None
        } else {
            let i = crate::json::skip_ws_spec(v, s + 1);
            if i < e && i < v.len() && v[i] == ']' {
                Some(Seq::<VectorInsertView>::empty())
            } else {
                spec_parse_elems(v, i)
            }
        },
    }
}

/// Reads an upsert payload `{"vectors":[...]}`. Every element must carry a
/// numeric `id`; otherwise the payload is rejected as a whole.
pub fn parse_vectors_payload(v: &Vec<char>) -> (r: Option<Vec<VectorInsert>>)
    ensures
        match r {
            Some(out) => spec_parse_vectors(v@) == Some(out@.map_values(|x: VectorInsert| x@)),
            None => spec_parse_vectors(v@) is None,
        },
{
    let key = chars_vec("vectors");
    let (s, e) = match find_object_field(v, &key) {
        Some(p) => p,
        None => {
            return None;
        },
    };
    if v[s] != '[' {
        return None;
    }
    let mut out: Vec<VectorInsert> = Vec::new();
    let mut i: usize = skip_ws(v, s + 1);
    if i < e && i < v.len() && v[i] == ']' {
        proof {
            assert(out@.map_values(|x: VectorInsert| x@) =~= Seq::<VectorInsertView>::empty());
        }
        return Some(out);
    }
    loop
        invariant
            i <= v@.len(),
            spec_parse_vectors(v@) == match spec_parse_elems(v@, i as int) {
                Option::<Seq<VectorInsertView>>::None => Option::<Seq<VectorInsertView>>::None,
                Option::<Seq<VectorInsertView>>::Some(rest) => Some(
                    out@.map_values(|x: VectorInsert| x@) + rest,
                ),
            },
        decreases v@.len() - i,
    {
        if i >= v.len() {
            return None;
        }
        let es = i;
        let ee = match skip_json_value(v, i) {
            Some(p) => p,
            None => {
                return None;
            },
        };
        let elem = subrange_vec(v, es, ee);
        match parse_vector_insert(&elem) {
            Some(ins) => {
                let ghost prev = out@.map_values(|x: VectorInsert| x@);
                let ghost insv = ins@;
                out.push(ins);
                proof {
                    assert(out@.map_values(|x: VectorInsert| x@) =~= prev.push(insv));
                }
            },
            None => {
                return None;
            },
        }
        let j = skip_ws(v, ee);
        if j >= v.len() {
            return None;
        }
        if v[j] == ']' {
            proof {
                let cur = out@.map_values(|x: VectorInsert| x@);
                assert(spec_parse_vectors(v@) == Some(cur)) by {
                    let prev = cur.drop_last();
                    assert(cur =~= prev.push(cur.last()));
                    assert(prev + seq![cur.last()] =~= cur);
                }
            }
            return Some(out);
        }
        if v[j] != ',' {
            return None;
        }
        i = skip_ws(v, j + 1);
        if i <= es {
            return None;
        }
        proof {
            let cur = out@.map_values(|x: VectorInsert| x@);
            let prev = cur.drop_last();
            assert(cur =~= prev.push(cur.last()));
            assert(forall|rest: Seq<VectorInsertView>| prev + (seq![cur.last()] + rest) =~= cur
                + rest);
        }
    }
}

} // verus!
