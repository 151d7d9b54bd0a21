//! The result decoder: the opaque payload of a successful evaluate
//! response, read back as the engine's tagged object tree.
//!
//! The payload is one encoded value of the shape
//! `[versionTag, qualifiedTypeName, originUri, fields]`, each field a
//! `[slot, name, value]` triple; the slot tag is carried through
//! untouched, so that fields re-declared along an inheritance chain stay
//! distinguishable, and each field's value keeps its byte-level shape
//! for the caller's mapping layer to interpret.
use vstd::prelude::*;

verus! {

use crate::errors::PklError;
use crate::msgpack::{Value, ValueV, dec_full, decode};

/// A host type that can be read out of a result payload.
pub trait Pkl where Self: Sized {
    fn unmarshal(data: Vec<u8>) -> Result<Self, &'static str>;
}

/// One field of a decoded object: its slot tag, name, and raw value.
#[derive(Debug, PartialEq)]
pub struct ResultField {
    pub slot: i64,
    pub name: String,
    pub value: Value,
}

pub struct ResultFieldV {
    pub slot: int,
    pub name: Seq<char>,
    pub value: ValueV,
}

impl View for ResultField {
    type V = ResultFieldV;

    open spec fn view(&self) -> ResultFieldV {
        ResultFieldV { slot: self.slot as int, name: self.name@, value: self.value@ }
    }
}

/// A decoded object: its version tag, type name, origin, and fields.
#[derive(Debug, PartialEq)]
pub struct ResultTree {
    pub version_tag: i64,
    pub qualified_name: String,
    pub origin_uri: String,
    pub fields: Vec<ResultField>,
}

pub struct ResultTreeV {
    pub version_tag: int,
    pub qualified_name: Seq<char>,
    pub origin_uri: Seq<char>,
    pub fields: Seq<ResultFieldV>,
}

pub open spec fn rfields_view(s: Seq<ResultField>) -> Seq<ResultFieldV> {
    Seq::new(s.len(), |i: int| s[i]@)
}

impl View for ResultTree {
    type V = ResultTreeV;

    open spec fn view(&self) -> ResultTreeV {
        ResultTreeV {
            version_tag: self.version_tag as int,
            qualified_name: self.qualified_name@,
            origin_uri: self.origin_uri@,
            fields: rfields_view(self.fields@),
        }
    }
}

/// One field from its `[slot, name, value]` triple.
pub open spec fn field_of(v: ValueV) -> Option<ResultFieldV> {
    match v {
        ValueV::Arr(parts) => if parts.len() == 3 {
            match (parts[0], parts[1]) {
                (ValueV::Int(slot), ValueV::Str(name)) => if i64::MIN <= slot <= i64::MAX {
                    Some(ResultFieldV { slot, name, value: parts[2] })
                } else {
                    None
                },
                _ => None,
            }
        } else {
            None
        },
        _ => None,
    }
}

/// All fields from their triples, in order.
pub open spec fn fields_of(s: Seq<ValueV>) -> Option<Seq<ResultFieldV>>
    decreases s,
{
    if s.len() == 0 {
        Some(Seq::empty())
    } else {
        match field_of(s.first()) {
            Some(f) => match fields_of(s.drop_first()) {
                Some(rest) => Some(seq![f] + rest),
                None => None,
            },
            None => None,
        }
    }
}

/// The object tree a decoded value carries, where it has the result
/// payload's shape.
pub open spec fn tree_of(v: ValueV) -> Option<ResultTreeV> {
    match v {
        ValueV::Arr(parts) => if parts.len() == 4 {
            match (parts[0], parts[1], parts[2], parts[3]) {
                (ValueV::Int(vt), ValueV::Str(tn), ValueV::Str(ou), ValueV::Arr(fs)) => if i64::MIN
                    <= vt <= i64::MAX {
                    match fields_of(fs) {
                        Some(fields) => Some(
                            ResultTreeV {
                                version_tag: vt,
                                qualified_name: tn,
                                origin_uri: ou,
                                fields,
                            },
                        ),
                        None => None,
                    }
                } else {
                    None
                },
                _ => None,
            }
        } else {
            None
        },
        _ => None,
    }
}

fn parse_field(v: Value) -> (r: Option<ResultField>)
    ensures
        match r {
            Some(f) => field_of(v@) == Some(f@),
            None => field_of(v@) is None,
        },
{
    let mut parts = match v {
        Value::Arr(parts) => parts,
        _ => {
            return None;
        },
    };
    proof {
        crate::msgpack::lemma_seq_view(parts@);
    }
    if parts.len() != 3 {
        return None;
    }
    let ghost gparts = parts@;
    let first = parts.remove(0);
    let second = parts.remove(0);
    let third = parts.remove(0);
    proof {
        assert(first == gparts[0] && second == gparts[1] && third == gparts[2]);
    }
    let slot = match first {
        Value::Int(slot) => slot,
        _ => {
            return None;
        },
    };
    let name = match second {
        Value::Str(name) => name,
        _ => {
            return None;
        },
    };
    Some(ResultField { slot, name, value: third })
}

/// Decodes a result payload into its object tree. Bytes that are not
/// one well-formed value of the result shape are refused as a malformed
/// frame; on success the tree reflects the payload exactly, slot tags
/// included.
pub fn decode_result(data: &Vec<u8>) -> (r: Result<ResultTree, PklError>)
    ensures
        match r {
            Ok(t) => dec_full(data@) matches Some(v) && tree_of(v) == Some(t@),
            Err(e) => e == PklError::MalformedFrame && (match dec_full(data@) {
                Some(v) => tree_of(v) is None,
                None => true,
            }),
        },
{
    let v = match decode(data) {
        Some(v) => v,
        None => {
            return Err(PklError::MalformedFrame);
        },
    };
    let ghost gv = v@;
    let mut parts = match v {
        Value::Arr(parts) => parts,
        _ => {
            return Err(PklError::MalformedFrame);
        },
    };
    proof {
        assert(gv == ValueV::Arr(crate::msgpack::seq_view(parts@)));
        crate::msgpack::lemma_seq_view(parts@);
    }
    if parts.len() != 4 {
        return Err(PklError::MalformedFrame);
    }
    let ghost gparts = parts@;
    let p0 = parts.remove(0);
    let p1 = parts.remove(0);
    let p2 = parts.remove(0);
    let p3 = parts.remove(0);
    proof {
        assert(p0 == gparts[0] && p1 == gparts[1] && p2 == gparts[2] && p3 == gparts[3]);
    }
    let version_tag = match p0 {
        Value::Int(vt) => vt,
        _ => {
            return Err(PklError::MalformedFrame);
        },
    };
    let qualified_name = match p1 {
        Value::Str(tn) => tn,
        _ => {
            return Err(PklError::MalformedFrame);
        },
    };
    let origin_uri = match p2 {
        Value::Str(ou) => ou,
        _ => {
            return Err(PklError::MalformedFrame);
        },
    };
    let mut fs = match p3 {
        Value::Arr(fs) => fs,
        _ => {
            return Err(PklError::MalformedFrame);
        },
    };
    let ghost whole = crate::msgpack::seq_view(fs@);
    proof {
        crate::msgpack::lemma_seq_view(gparts);
        assert(crate::msgpack::seq_view(gparts) =~= seq![p0@, p1@, p2@, p3@]);
        assert(tree_of(gv) == (match fields_of(whole) {
            Some(fl) => Some(
                ResultTreeV {
                    version_tag: version_tag as int,
                    qualified_name: qualified_name@,
                    origin_uri: origin_uri@,
                    fields: fl,
                },
            ),
            None => None::<ResultTreeV>,
        }));
    }
    let mut fields: Vec<ResultField> = Vec::new();
    while fs.len() > 0
        invariant
            dec_full(data@) == Some(gv),
            tree_of(gv) == (match fields_of(whole) {
                Some(fl) => Some(
                    ResultTreeV {
                        version_tag: version_tag as int,
                        qualified_name: qualified_name@,
                        origin_uri: origin_uri@,
                        fields: fl,
                    },
                ),
                None => None::<ResultTreeV>,
            }),
            fields_of(whole) == (match fields_of(crate::msgpack::seq_view(fs@)) {
                Some(rest) => Some(rfields_view(fields@) + rest),
                None => None::<Seq<ResultFieldV>>,
            }),
        decreases fs@.len(),
    {
        proof {
            crate::msgpack::lemma_seq_view(fs@);
        }
        let ghost before = crate::msgpack::seq_view(fs@);
        let f = fs.remove(0);
        proof {
            crate::msgpack::lemma_seq_view(fs@);
            assert(before.first() == f@);
            assert(before.drop_first() =~= crate::msgpack::seq_view(fs@));
        }
        match parse_field(f) {
            Some(rf) => {
                let ghost prev = fields@;
                fields.push(rf);
                proof {
                    assert(rfields_view(fields@) =~= rfields_view(prev).push(rf@));
                    match fields_of(crate::msgpack::seq_view(fs@)) {
                        Some(rest) => {
                            assert(rfields_view(prev).push(rf@) + rest =~= rfields_view(prev) + (
                            seq![rf@] + rest));
                        },
                        None => {},
                    }
                }
            },
            None => {
                proof {
                    assert(fields_of(before) is None);
                }
                return Err(PklError::MalformedFrame);
            },
        }
    }
    proof {
        assert(crate::msgpack::seq_view(fs@) =~= Seq::<ValueV>::empty());
        assert(fields_of(crate::msgpack::seq_view(fs@)) == Some(Seq::<ResultFieldV>::empty()));
        match fields_of(whole) {
            Some(all) => {
                assert(rfields_view(fields@) + Seq::<ResultFieldV>::empty() =~= rfields_view(
                    fields@,
                ));
            },
            None => {},
        }
    }
    Ok(ResultTree { version_tag, qualified_name, origin_uri, fields })
}

} // verus!
