//! The structured error carried by a failed call: an integer code, a
//! human-readable message, and an optional structured payload. The code is
//! opaque data owned by the dispatch layer; this module only round-trips it.

use vstd::prelude::*;

use crate::json::{
    first_val, has_key, json_view, keys_unique, lemma_dup_key, lemma_first_val_at,
    lemma_step_other, Json, JsonV,
};

verus! {

broadcast use vstd::string::group_string_axioms;

/// A decoding fault: the document handed in is not a well-formed instance of
/// the schema. No partial value is ever produced.
#[derive(Debug, Clone, Copy, PartialEq, Eq)]
pub struct DecodeError;

/// A terminal failure of one call.
#[derive(Debug, PartialEq, Eq)]
pub struct RpcError {
    pub code: i64,
    pub message: String,
    pub data: Option<Json>,
}

/// The mathematical image of an `RpcError`.
#[verifier::ext_equal]
pub struct RpcErrorV {
    pub code: int,
    pub message: Seq<char>,
    pub data: Option<JsonV>,
}

impl View for RpcError {
    type V = RpcErrorV;

    open spec fn view(&self) -> RpcErrorV {
        RpcErrorV {
            code: self.code as int,
            message: self.message@,
            data: match self.data {
                Option::Some(d) => Option::Some(json_view(d)),
                Option::None => Option::None,
            },
        }
    }
}

/// The wire fields of an error object: `code` and `message` always, `data`
/// only when it is set — an unset `data` is omitted, not emitted as `null`.
pub open spec fn err_fields(e: RpcErrorV) -> Seq<(Seq<char>, JsonV)> {
    seq![("code"@, JsonV::Int(e.code)), ("message"@, JsonV::Str(e.message))] + (match e.data {
        Option::Some(d) => seq![("data"@, d)],
        Option::None => Seq::empty(),
    })
}

/// The wire image of an error object.
pub open spec fn err_jv(e: RpcErrorV) -> JsonV {
    JsonV::Obj(err_fields(e))
}

/// Strict decoding of an error object: the document must be an object whose
/// keys are unique and drawn from {code, message, data}, `code` must be an
/// integer, `message` a string; anything else is rejected.
pub open spec fn err_of_jv(v: JsonV) -> Option<RpcErrorV> {
    match v {
        JsonV::Obj(fs) => {
            if keys_unique(fs) && (forall|i: int|
                0 <= i < fs.len() ==> (#[trigger] fs[i]).0 == "code"@ || fs[i].0 == "message"@
                    || fs[i].0 == "data"@) && has_key(fs, "code"@) && has_key(fs, "message"@) {
                match (first_val(fs, "code"@), first_val(fs, "message"@)) {
                    (JsonV::Int(c), JsonV::Str(m)) => Option::Some(
                        RpcErrorV {
                            code: c,
                            message: m,
                            data: if has_key(fs, "data"@) {
                                Option::Some(first_val(fs, "data"@))
                            } else {
                                Option::None
                            },
                        },
                    ),
                    _ => Option::None,
                }
            } else {
                Option::None
            }
        },
        _ => Option::None,
    }
}

impl RpcError {
    /// Builds an error from a code, a message and an optional payload; no
    /// validation is performed on the code.
    pub fn new(code: i64, message: String, data: Option<Json>) -> (r: RpcError)
        ensures
            r@ == (RpcErrorV {
                code: code as int,
                message: message@,
                data: match data {
                    Option::Some(d) => Option::Some(json_view(d)),
                    Option::None => Option::None::<JsonV>,
                },
            }),
    {
        RpcError { code, message, data }
    }

    /// The well-known "Invalid Request" error of the protocol.
    pub fn invalid_request() -> (r: RpcError)
        ensures
            r@.code == -32600,
            r@.message == "Invalid Request"@,
            r@.data is None,
    {
        RpcError { code: -32600, message: String::from_str("Invalid Request"), data: None }
    }

    /// The wire image of this error.
    pub fn to_json(&self) -> (j: Json)
        ensures
            j@ == err_jv(self@),
    {
        let mut fs: Vec<(String, Json)> = Vec::new();
        fs.push((String::from_str("code"), Json::Int(self.code)));
        fs.push((String::from_str("message"), Json::Str(self.message.clone())));
        match &self.data {
            Some(d) => fs.push((String::from_str("data"), d.deep_clone())),
            None => (),
        }
        let j = Json::Obj(fs);
        proof {
            crate::json::lemma_fields_view_len(fs@);
            crate::json::lemma_fields_view_index(fs@, 0);
            crate::json::lemma_fields_view_index(fs@, 1);
            if self.data is Some {
                crate::json::lemma_fields_view_index(fs@, 2);
            }
            assert(crate::json::fields_view(fs@) =~= err_fields(self@));
        }
        j
    }

    /// Strict decoding of an error object; rejects unknown keys, duplicate
    /// keys, a missing `code` or `message`, and wrongly typed members.
    pub fn from_json(j: &Json) -> (r: Result<RpcError, DecodeError>)
        ensures
            match r {
                Ok(e) => err_of_jv(j@) == Option::Some(e@),
                Err(_) => err_of_jv(j@) is None,
            },
    {
        let fields: &Vec<(String, Json)> = match j {
            Json::Obj(v) => v,
            _ => {
                return Err(DecodeError);
            },
        };
        let key_code = String::from_str("code");
        let key_message = String::from_str("message");
        let key_data = String::from_str("data");
        let ghost fs = crate::json::fields_view(fields@);
        proof {
            crate::json::lemma_fields_view_len(fields@);
        }
        let mut code: Option<i64> = None;
        let mut message: Option<String> = None;
        let mut data: Option<Json> = None;
        let mut i: usize = 0;
        while i < fields.len()
            invariant
                *j == Json::Obj(*fields),
                fs == crate::json::fields_view(fields@),
                fs.len() == fields@.len(),
                i <= fields.len(),
                forall|k: int| 0 <= k < i ==> (#[trigger] fs[k]).0 == "code"@
                    || fs[k].0 == "message"@ || fs[k].0 == "data"@,
                forall|k1: int, k2: int| 0 <= k1 < k2 < i ==> fs[k1].0 != fs[k2].0,
                code is Some <==> has_key(fs.take(i as int), "code"@),
                message is Some <==> has_key(fs.take(i as int), "message"@),
                data is Some <==> has_key(fs.take(i as int), "data"@),
                match code {
                    Option::Some(c) => first_val(fs.take(i as int), "code"@) == JsonV::Int(
                        c as int,
                    ),
                    Option::None => true,
                },
                match message {
                    Option::Some(m) => first_val(fs.take(i as int), "message"@) == JsonV::Str(m@),
                    Option::None => true,
                },
                match data {
                    Option::Some(d) => first_val(fs.take(i as int), "data"@) == d@,
                    Option::None => true,
                },
                key_code@ == "code"@,
                key_message@ == "message"@,
                key_data@ == "data"@,
            decreases fields.len() - i,
        {
            proof {
                reveal_strlit("code");
                reveal_strlit("message");
                reveal_strlit("data");
                assert("code"@.len() == 4 && "message"@.len() == 7 && "data"@.len() == 4);
                assert("code"@[0] == 'c' && "data"@[0] == 'd');
                assert("code"@ != "message"@ && "code"@ != "data"@ && "message"@ != "data"@);
                crate::json::lemma_fields_view_index(fields@, i as int);
                assert(fs.take(i as int + 1).drop_last() =~= fs.take(i as int));
                assert(fs.take(i as int + 1).take(i as int) =~= fs.take(i as int));
            }
            let entry_key: &String = &fields[i].0;
            if *entry_key == key_code {
                if code.is_some() {
                    proof {
                        lemma_dup_key(fs, i as int, "code"@);
                    }
                    return Err(DecodeError);
                }
                match &fields[i].1 {
                    Json::Int(n) => {
                        code = Some(*n);
                    },
                    _ => {
                        proof {
                            lemma_first_val_at(fs, "code"@, i as int);
                        }
                        return Err(DecodeError);
                    },
                }
                proof {
                    lemma_first_val_at(fs.take(i as int + 1), "code"@, i as int);
                    crate::json::lemma_no_dup_in_prefix(fs, i as int, "code"@);
                    lemma_step_other(fs, i as int, "message"@);
                    lemma_step_other(fs, i as int, "data"@);
                }
            } else if *entry_key == key_message {
                if message.is_some() {
                    proof {
                        lemma_dup_key(fs, i as int, "message"@);
                    }
                    return Err(DecodeError);
                }
                match &fields[i].1 {
                    Json::Str(s) => {
                        message = Some(s.clone());
                    },
                    _ => {
                        proof {
                            lemma_first_val_at(fs, "message"@, i as int);
                        }
                        return Err(DecodeError);
                    },
                }
                proof {
                    lemma_first_val_at(fs.take(i as int + 1), "message"@, i as int);
                    crate::json::lemma_no_dup_in_prefix(fs, i as int, "message"@);
                    lemma_step_other(fs, i as int, "code"@);
                    lemma_step_other(fs, i as int, "data"@);
                }
            } else if *entry_key == key_data {
                if data.is_some() {
                    proof {
                        lemma_dup_key(fs, i as int, "data"@);
                    }
                    return Err(DecodeError);
                }
                data = Some(fields[i].1.deep_clone());
                proof {
                    lemma_first_val_at(fs.take(i as int + 1), "data"@, i as int);
                    crate::json::lemma_no_dup_in_prefix(fs, i as int, "data"@);
                    lemma_step_other(fs, i as int, "code"@);
                    lemma_step_other(fs, i as int, "message"@);
                }
            } else {
                proof {
                    reveal_strlit("code");
                    reveal_strlit("message");
                    reveal_strlit("data");
                }
                return Err(DecodeError);
            }
            i += 1;
        }
        proof {
            assert(fs.take(fs.len() as int) =~= fs);
        }
        let c = match code {
            Some(c) => c,
            None => {
                return Err(DecodeError);
            },
        };
        let m = match message {
            Some(m) => m,
            None => {
                return Err(DecodeError);
            },
        };
        Ok(RpcError { code: c, message: m, data })
    }
}

/// Law: an unset `data` leaves no `data` key in the wire object — the member
/// is omitted entirely, not serialized as `null`.
pub proof fn lemma_error_data_omitted(e: RpcErrorV)
    requires
        e.data is None,
    ensures
        !has_key(err_fields(e), "data"@),
        err_fields(e).len() == 2,
{
    reveal_strlit("code");
    reveal_strlit("message");
    reveal_strlit("data");
    assert("code"@.len() == 4 && "message"@.len() == 7 && "data"@.len() == 4);
    assert("code"@[0] == 'c' && "data"@[0] == 'd');
    let fs = err_fields(e);
    assert(fs =~= seq![("code"@, JsonV::Int(e.code)), ("message"@, JsonV::Str(e.message))]);
    assert(!has_key(fs, "data"@)) by {
        if has_key(fs, "data"@) {
            let w = choose|w: int| 0 <= w < fs.len() && (#[trigger] fs[w]).0 == "data"@;
        }
    }
}

/// Law: decoding the wire image of an error reproduces the error exactly,
/// including a set `data` payload with all its nested structure.
pub proof fn lemma_error_round_trip(e: RpcErrorV)
    ensures
        err_of_jv(err_jv(e)) == Option::Some(e),
{
    reveal_strlit("code");
    reveal_strlit("message");
    reveal_strlit("data");
    assert("code"@.len() == 4 && "message"@.len() == 7 && "data"@.len() == 4);
    assert("code"@[0] == 'c' && "data"@[0] == 'd');
    let fs = err_fields(e);
    match e.data {
        Option::Some(d) => {
            assert(fs =~= seq![
                ("code"@, JsonV::Int(e.code)),
                ("message"@, JsonV::Str(e.message)),
                ("data"@, d),
            ]);
            let fs1 = fs.drop_first();
            let fs2 = fs1.drop_first();
            assert(fs1 =~= seq![("message"@, JsonV::Str(e.message)), ("data"@, d)]);
            assert(fs2 =~= seq![("data"@, d)]);
            assert(first_val(fs, "code"@) == JsonV::Int(e.code));
            assert(first_val(fs2, "data"@) == d);
            assert(first_val(fs1, "message"@) == JsonV::Str(e.message));
            assert(first_val(fs1, "data"@) == first_val(fs2, "data"@));
            assert(first_val(fs, "message"@) == first_val(fs1, "message"@));
            assert(first_val(fs, "data"@) == first_val(fs1, "data"@));
            assert(fs[0].0 == "code"@ && fs[1].0 == "message"@ && fs[2].0 == "data"@);
        },
        Option::None => {
            assert(fs =~= seq![("code"@, JsonV::Int(e.code)), ("message"@, JsonV::Str(e.message))]);
            assert(fs.drop_first() =~= seq![("message"@, JsonV::Str(e.message))]);
            assert(first_val(fs, "code"@) == JsonV::Int(e.code));
            assert(first_val(fs, "message"@) == JsonV::Str(e.message));
            assert(fs[0].0 == "code"@ && fs[1].0 == "message"@);
            assert(!has_key(fs, "data"@)) by {
                if has_key(fs, "data"@) {
                    let w = choose|w: int| 0 <= w < fs.len() && (#[trigger] fs[w]).0 == "data"@;
                }
            }
        },
    }
}

} // verus!
