//! The response envelope of the protocol: one call's outcome wrapped with the
//! version tag and the correlation identifier, and the transport-ready form
//! that distinguishes a single response from an ordered batch by shape alone
//! (object vs. array), with no wrapper discriminator.

use vstd::prelude::*;

use crate::error::{err_jv, err_of_jv, DecodeError, RpcError, RpcErrorV};
use crate::json::{
    fields_view, first_val, has_key, json_view, keys_unique, lemma_dup_key, lemma_fields_view_index,
    lemma_fields_view_len, lemma_first_val_at, lemma_list_view_index, lemma_list_view_len,
    lemma_step_other, list_view, Json, JsonV,
};

verus! {

broadcast use vstd::string::group_string_axioms;

/// The correlation identifier echoed from the request. `Null` is the
/// identifier of a response to a request whose own identifier could not be
/// determined; it is distinct from an absent identifier.
#[derive(Debug, Clone, PartialEq, Eq)]
pub enum Id {
    Number(i64),
    Str(String),
    Null,
}

/// The mathematical image of an `Id`.
pub enum IdV {
    Number(int),
    Str(Seq<char>),
    Null,
}

impl View for Id {
    type V = IdV;

    open spec fn view(&self) -> IdV {
        match self {
            Id::Number(n) => IdV::Number(*n as int),
            Id::Str(s) => IdV::Str(s@),
            Id::Null => IdV::Null,
        }
    }
}

/// The protocol version tag; the only version is "2.0".
#[derive(Debug, Clone, Copy, PartialEq, Eq)]
pub enum Version {
    V2,
}

/// The result of one call: either a success payload or a structured error,
/// never both, never neither.
#[derive(Debug, PartialEq, Eq)]
pub enum ResponseResult {
    Success(Json),
    Error(RpcError),
}

/// The mathematical image of a `ResponseResult`.
pub enum ResponseResultV {
    Success(JsonV),
    Error(RpcErrorV),
}

impl View for ResponseResult {
    type V = ResponseResultV;

    open spec fn view(&self) -> ResponseResultV {
        match self {
            ResponseResult::Success(p) => ResponseResultV::Success(json_view(*p)),
            ResponseResult::Error(e) => ResponseResultV::Error(e@),
        }
    }
}

impl ResponseResult {
    /// Wraps an error as a call outcome.
    pub fn error(error: RpcError) -> (r: ResponseResult)
        ensures
            r@ == ResponseResultV::Error(error@),
    {
        ResponseResult::Error(error)
    }
}

/// The response to a single call.
#[derive(Debug, PartialEq, Eq)]
pub struct RpcResponse {
    jsonrpc: Version,
    id: Option<Id>,
    pub(crate) result: ResponseResult,
}

/// The mathematical image of an `RpcResponse`. The version tag carries no
/// information (it is always "2.0") and has no image; an absent identifier
/// (`id` unset) is distinct from the `Null` identifier.
#[verifier::ext_equal]
pub struct RpcResponseV {
    pub id: Option<IdV>,
    pub result: ResponseResultV,
}

impl View for RpcResponse {
    type V = RpcResponseV;

    closed spec fn view(&self) -> RpcResponseV {
        RpcResponseV {
            id: match self.id {
                Option::Some(i) => Option::Some(i@),
                Option::None => Option::None,
            },
            result: self.result@,
        }
    }
}

/// A single response or an ordered batch of responses. The wire form is
/// untagged: a single response is a JSON object, a batch is a JSON array, in
/// the order the envelopes were supplied.
#[derive(Debug, PartialEq, Eq)]
pub enum Response {
    Single(RpcResponse),
    Batch(Vec<RpcResponse>),
}

/// The mathematical image of a `Response`.
#[verifier::ext_equal]
pub enum ResponseV {
    Single(RpcResponseV),
    Batch(Seq<RpcResponseV>),
}

pub open spec fn responses_view(v: Seq<RpcResponse>) -> Seq<RpcResponseV> {
    v.map_values(|r: RpcResponse| r@)
}

impl View for Response {
    type V = ResponseV;

    open spec fn view(&self) -> ResponseV {
        match self {
            Response::Single(r) => ResponseV::Single(r@),
            Response::Batch(v) => ResponseV::Batch(responses_view(v@)),
        }
    }
}

/// The wire image of a correlation identifier.
pub open spec fn id_jv(i: IdV) -> JsonV {
    match i {
        IdV::Number(n) => JsonV::Int(n),
        IdV::Str(s) => JsonV::Str(s),
        IdV::Null => JsonV::Null,
    }
}

/// The wire fields of one envelope: the fixed version tag, the identifier if
/// it is set (a `Null` identifier is serialized as JSON `null`, an unset one
/// is omitted), and exactly one of `result` or `error`.
pub open spec fn response_fields(r: RpcResponseV) -> Seq<(Seq<char>, JsonV)> {
    seq![("jsonrpc"@, JsonV::Str("2.0"@))] + (match r.id {
        Option::Some(i) => seq![("id"@, id_jv(i))],
        Option::None => Seq::empty(),
    }) + (match r.result {
        ResponseResultV::Success(p) => seq![("result"@, p)],
        ResponseResultV::Error(e) => seq![("error"@, err_jv(e))],
    })
}

/// The wire image of one envelope.
pub open spec fn response_jv(r: RpcResponseV) -> JsonV {
    JsonV::Obj(response_fields(r))
}

/// The wire image of a single response or a batch: an object for a single
/// response, an array (in supplied order) for a batch.
pub open spec fn batch_jv(b: ResponseV) -> JsonV {
    match b {
        ResponseV::Single(r) => response_jv(r),
        ResponseV::Batch(rs) => JsonV::Arr(rs.map_values(|r: RpcResponseV| response_jv(r))),
    }
}

/// Strict decoding of a wire identifier: a number, a string or `null`.
pub open spec fn id_of_jv(v: JsonV) -> Option<IdV> {
    match v {
        JsonV::Int(n) => Option::Some(IdV::Number(n)),
        JsonV::Str(s) => Option::Some(IdV::Str(s)),
        JsonV::Null => Option::Some(IdV::Null),
        _ => Option::None,
    }
}

/// The decoded identifier member: `None` for a malformed one; otherwise the
/// identifier, or an absent identifier when the member is missing.
pub open spec fn id_member_of(fs: Seq<(Seq<char>, JsonV)>) -> Option<Option<IdV>> {
    if has_key(fs, "id"@) {
        match id_of_jv(first_val(fs, "id"@)) {
            Option::Some(i) => Option::Some(Option::Some(i)),
            Option::None => Option::None,
        }
    } else {
        Option::Some(Option::None)
    }
}

/// The decoded outcome: exactly one of `result` and `error` must be present;
/// a document with both, or with neither, has no outcome and is rejected.
pub open spec fn outcome_of(fs: Seq<(Seq<char>, JsonV)>) -> Option<ResponseResultV> {
    if has_key(fs, "result"@) && !has_key(fs, "error"@) {
        Option::Some(ResponseResultV::Success(first_val(fs, "result"@)))
    } else if !has_key(fs, "result"@) && has_key(fs, "error"@) {
        match err_of_jv(first_val(fs, "error"@)) {
            Option::Some(e) => Option::Some(ResponseResultV::Error(e)),
            Option::None => Option::None,
        }
    } else {
        Option::None
    }
}

/// Strict decoding of one envelope: an object with unique keys drawn from
/// {jsonrpc, id, result, error}, a `jsonrpc` member equal to "2.0", a
/// well-formed identifier if one is present, and exactly one well-formed
/// outcome member. Anything else — an unknown key, a duplicate, both or
/// neither outcome member — is rejected.
pub open spec fn response_of_jv(v: JsonV) -> Option<RpcResponseV> {
    match v {
        JsonV::Obj(fs) => {
            if keys_unique(fs) && (forall|i: int|
                0 <= i < fs.len() ==> (#[trigger] fs[i]).0 == "jsonrpc"@ || fs[i].0 == "id"@
                    || fs[i].0 == "result"@ || fs[i].0 == "error"@) && has_key(fs, "jsonrpc"@)
                && first_val(fs, "jsonrpc"@) == JsonV::Str("2.0"@) {
                match (id_member_of(fs), outcome_of(fs)) {
                    (Option::Some(id), Option::Some(rr)) => Option::Some(
                        RpcResponseV { id, result: rr },
                    ),
                    _ => Option::None,
                }
            } else {
                Option::None
            }
        },
        _ => Option::None,
    }
}

impl Id {
    /// The wire image of this identifier.
    pub fn to_json(&self) -> (j: Json)
        ensures
            j@ == id_jv(self@),
    {
        match self {
            Id::Number(n) => Json::Int(*n),
            Id::Str(s) => Json::Str(s.clone()),
            Id::Null => Json::Null,
        }
    }
}

impl RpcResponse {
    /// Builds an envelope for an outcome; the identifier is always present
    /// (a `Null` identifier is kept, not dropped) and the version is fixed.
    pub fn new(id: Id, content: ResponseResult) -> (r: RpcResponse)
        ensures
            r@ == (RpcResponseV { id: Option::Some(id@), result: content@ }),
    {
        RpcResponse { jsonrpc: Version::V2, id: Some(id), result: content }
    }

    /// An envelope carrying the well-known "Invalid Request" error — used
    /// when the request could not be parsed far enough to dispatch it.
    pub fn invalid_request(id: Id) -> (r: RpcResponse)
        ensures
            r@ == (RpcResponseV {
                id: Option::Some(id@),
                result: ResponseResultV::Error(
                    RpcErrorV { code: -32600, message: "Invalid Request"@, data: Option::None },
                ),
            }),
    {
        Self::new(id, ResponseResult::Error(RpcError::invalid_request()))
    }

    /// Builds an envelope directly from an error and an identifier.
    pub fn from_rpc_error(e: RpcError, id: Id) -> (r: RpcResponse)
        ensures
            r@ == (RpcResponseV {
                id: Option::Some(id@),
                result: ResponseResultV::Error(e@),
            }),
    {
        RpcResponse { jsonrpc: Version::V2, id: Some(id), result: ResponseResult::Error(e) }
    }

    /// The wire image of this envelope.
    pub fn to_json(&self) -> (j: Json)
        ensures
            j@ == response_jv(self@),
    {
        let mut fs: Vec<(String, Json)> = Vec::new();
        fs.push((String::from_str("jsonrpc"), Json::Str(String::from_str("2.0"))));
        match &self.id {
            Some(id) => fs.push((String::from_str("id"), id.to_json())),
            None => (),
        }
        match &self.result {
            ResponseResult::Success(p) => fs.push(
                (String::from_str("result"), p.deep_clone()),
            ),
            ResponseResult::Error(e) => fs.push((String::from_str("error"), e.to_json())),
        }
        let j = Json::Obj(fs);
        proof {
            lemma_fields_view_len(fs@);
            lemma_fields_view_index(fs@, 0);
            lemma_fields_view_index(fs@, 1);
            if self.id is Some {
                lemma_fields_view_index(fs@, 2);
            }
            assert(fields_view(fs@) =~= response_fields(self@));
        }
        j
    }

    /// Strict decoding of one envelope; rejects unknown keys, duplicate keys,
    /// a missing or wrong version tag, a malformed identifier or error
    /// member, and a document with both or neither of `result` and `error`.
    pub fn from_json(j: &Json) -> (r: Result<RpcResponse, DecodeError>)
        ensures
            match r {
                Ok(resp) => response_of_jv(j@) == Option::Some(resp@),
                Err(_) => response_of_jv(j@) is None,
            },
    {
        let fields: &Vec<(String, Json)> = match j {
            Json::Obj(v) => v,
            _ => {
                return Err(DecodeError);
            },
        };
        let key_jsonrpc = String::from_str("jsonrpc");
        let key_id = String::from_str("id");
        let key_result = String::from_str("result");
        let key_error = String::from_str("error");
        let v2 = String::from_str("2.0");
        let ghost fs = fields_view(fields@);
        proof {
            lemma_fields_view_len(fields@);
        }
        let mut version_seen: bool = false;
        let mut id_slot: Option<Id> = None;
        let mut result_slot: Option<Json> = None;
        let mut error_slot: Option<RpcError> = None;
        let mut i: usize = 0;
        while i < fields.len()
            invariant
                *j == Json::Obj(*fields),
                fs == fields_view(fields@),
                fs.len() == fields@.len(),
                i <= fields.len(),
                forall|k: int| 0 <= k < i ==> (#[trigger] fs[k]).0 == "jsonrpc"@
                    || fs[k].0 == "id"@ || fs[k].0 == "result"@ || fs[k].0 == "error"@,
                forall|k1: int, k2: int| 0 <= k1 < k2 < i ==> fs[k1].0 != fs[k2].0,
                version_seen <==> has_key(fs.take(i as int), "jsonrpc"@),
                version_seen ==> first_val(fs.take(i as int), "jsonrpc"@) == JsonV::Str("2.0"@),
                id_slot is Some <==> has_key(fs.take(i as int), "id"@),
                result_slot is Some <==> has_key(fs.take(i as int), "result"@),
                error_slot is Some <==> has_key(fs.take(i as int), "error"@),
                match id_slot {
                    Option::Some(x) => id_of_jv(first_val(fs.take(i as int), "id"@))
                        == Option::Some(x@),
                    Option::None => true,
                },
                match result_slot {
                    Option::Some(p) => first_val(fs.take(i as int), "result"@) == p@,
                    Option::None => true,
                },
                match error_slot {
                    Option::Some(e) => err_of_jv(first_val(fs.take(i as int), "error"@))
                        == Option::Some(e@),
                    Option::None => true,
                },
                key_jsonrpc@ == "jsonrpc"@,
                key_id@ == "id"@,
                key_result@ == "result"@,
                key_error@ == "error"@,
                v2@ == "2.0"@,
            decreases fields.len() - i,
        {
            proof {
                reveal_strlit("jsonrpc");
                reveal_strlit("id");
                reveal_strlit("result");
                reveal_strlit("error");
                assert("jsonrpc"@.len() == 7 && "id"@.len() == 2 && "result"@.len() == 6
                    && "error"@.len() == 5);
                assert("result"@[0] == 'r' && "error"@[0] == 'e');
                lemma_fields_view_index(fields@, i as int);
                assert(fs.take(i as int + 1).take(i as int) =~= fs.take(i as int));
            }
            let entry_key: &String = &fields[i].0;
            if *entry_key == key_jsonrpc {
                if version_seen {
                    proof {
                        lemma_dup_key(fs, i as int, "jsonrpc"@);
                    }
                    return Err(DecodeError);
                }
                let ok: bool = match &fields[i].1 {
                    Json::Str(s) => *s == v2,
                    _ => false,
                };
                if !ok {
                    proof {
                        lemma_first_val_at(fs, "jsonrpc"@, i as int);
                    }
                    return Err(DecodeError);
                }
                version_seen = true;
                proof {
                    lemma_first_val_at(fs.take(i as int + 1), "jsonrpc"@, i as int);
                    lemma_step_other(fs, i as int, "id"@);
                    lemma_step_other(fs, i as int, "result"@);
                    lemma_step_other(fs, i as int, "error"@);
                    crate::json::lemma_no_dup_in_prefix(fs, i as int, "jsonrpc"@);
                }
            } else if *entry_key == key_id {
                if id_slot.is_some() {
                    proof {
                        lemma_dup_key(fs, i as int, "id"@);
                    }
                    return Err(DecodeError);
                }
                let parsed: Id = match &fields[i].1 {
                    Json::Int(n) => Id::Number(*n),
                    Json::Str(s) => Id::Str(s.clone()),
                    Json::Null => Id::Null,
                    _ => {
                        proof {
                            lemma_first_val_at(fs, "id"@, i as int);
                        }
                        return Err(DecodeError);
                    },
                };
                id_slot = Some(parsed);
                proof {
                    lemma_first_val_at(fs.take(i as int + 1), "id"@, i as int);
                    lemma_step_other(fs, i as int, "jsonrpc"@);
                    lemma_step_other(fs, i as int, "result"@);
                    lemma_step_other(fs, i as int, "error"@);
                    crate::json::lemma_no_dup_in_prefix(fs, i as int, "id"@);
                }
            } else if *entry_key == key_result {
                if result_slot.is_some() {
                    proof {
                        lemma_dup_key(fs, i as int, "result"@);
                    }
                    return Err(DecodeError);
                }
                result_slot = Some(fields[i].1.deep_clone());
                proof {
                    lemma_first_val_at(fs.take(i as int + 1), "result"@, i as int);
                    lemma_step_other(fs, i as int, "jsonrpc"@);
                    lemma_step_other(fs, i as int, "id"@);
                    lemma_step_other(fs, i as int, "error"@);
                    crate::json::lemma_no_dup_in_prefix(fs, i as int, "result"@);
                }
            } else if *entry_key == key_error {
                if error_slot.is_some() {
                    proof {
                        lemma_dup_key(fs, i as int, "error"@);
                    }
                    return Err(DecodeError);
                }
                let e = match RpcError::from_json(&fields[i].1) {
                    Ok(e) => e,
                    Err(_) => {
                        proof {
                            lemma_first_val_at(fs, "error"@, i as int);
                        }
                        return Err(DecodeError);
                    },
                };
                error_slot = Some(e);
                proof {
                    lemma_first_val_at(fs.take(i as int + 1), "error"@, i as int);
                    lemma_step_other(fs, i as int, "jsonrpc"@);
                    lemma_step_other(fs, i as int, "id"@);
                    lemma_step_other(fs, i as int, "result"@);
                    crate::json::lemma_no_dup_in_prefix(fs, i as int, "error"@);
                }
            } else {
                return Err(DecodeError);
            }
            i += 1;
        }
        proof {
            assert(fs.take(fs.len() as int) =~= fs);
        }
        if !version_seen {
            return Err(DecodeError);
        }
        let result: ResponseResult = match (result_slot, error_slot) {
            (Some(p), None) => ResponseResult::Success(p),
            (None, Some(e)) => ResponseResult::Error(e),
            _ => {
                return Err(DecodeError);
            },
        };
        Ok(RpcResponse { jsonrpc: Version::V2, id: id_slot, result })
    }
}

impl Response {
    /// A single-envelope response whose identifier is `Null` — used for
    /// batch-level failures where no per-call identifier could be recovered.
    pub fn error(error: RpcError) -> (r: Response)
        ensures
            r@ == ResponseV::Single(
                RpcResponseV {
                    id: Option::Some(IdV::Null),
                    result: ResponseResultV::Error(error@),
                },
            ),
    {
        Response::Single(RpcResponse::new(Id::Null, ResponseResult::Error(error)))
    }

    /// The wire image: the envelope's object for a single response, an array
    /// of the envelopes' objects, in order, for a batch.
    pub fn to_json(&self) -> (j: Json)
        ensures
            j@ == batch_jv(self@),
    {
        match self {
            Response::Single(r) => r.to_json(),
            Response::Batch(rs) => {
                let mut out: Vec<Json> = Vec::new();
                let mut i: usize = 0;
                while i < rs.len()
                    invariant
                        i <= rs.len(),
                        out@.len() == i as int,
                        forall|k: int| 0 <= k < i ==> json_view(#[trigger] out@[k])
                            == response_jv(rs@[k]@),
                    decreases rs.len() - i,
                {
                    out.push(rs[i].to_json());
                    i += 1;
                }
                let j = Json::Arr(out);
                proof {
                    lemma_list_view_len(out@);
                    assert forall|k: int| 0 <= k < out@.len() implies #[trigger] list_view(
                        out@,
                    )[k] == responses_view(rs@).map_values(|r: RpcResponseV| response_jv(r))[k] by {
                        lemma_list_view_index(out@, k);
                    };
                    assert(list_view(out@) =~= responses_view(rs@).map_values(
                        |r: RpcResponseV| response_jv(r),
                    ));
                }
                j
            },
        }
    }
}

impl From<RpcError> for ResponseResult {
    fn from(err: RpcError) -> (r: ResponseResult) {
        ResponseResult::Error(err)
    }
}

impl vstd::std_specs::convert::FromSpecImpl<RpcError> for ResponseResult {
    open spec fn obeys_from_spec() -> bool {
        true
    }

    open spec fn from_spec(err: RpcError) -> ResponseResult {
        ResponseResult::Error(err)
    }
}

impl From<RpcError> for Response {
    fn from(err: RpcError) -> (r: Response) {
        Response::Single(
            RpcResponse { jsonrpc: Version::V2, id: Some(Id::Null), result: ResponseResult::Error(err) },
        )
    }
}

impl vstd::std_specs::convert::FromSpecImpl<RpcError> for Response {
    open spec fn obeys_from_spec() -> bool {
        true
    }

    closed spec fn from_spec(err: RpcError) -> Response {
        Response::Single(
            RpcResponse {
                jsonrpc: Version::V2,
                id: Option::Some(Id::Null),
                result: ResponseResult::Error(err),
            },
        )
    }
}

impl From<RpcResponse> for Response {
    fn from(resp: RpcResponse) -> (r: Response) {
        Response::Single(resp)
    }
}

impl vstd::std_specs::convert::FromSpecImpl<RpcResponse> for Response {
    open spec fn obeys_from_spec() -> bool {
        true
    }

    open spec fn from_spec(resp: RpcResponse) -> Response {
        Response::Single(resp)
    }
}

/// Law: the wire object of an envelope holds a `result` key exactly when the
/// outcome is a success and an `error` key exactly when it is a failure, so
/// exactly one of the two appears.
pub proof fn lemma_outcome_exclusive(r: RpcResponseV)
    ensures
        has_key(response_fields(r), "result"@) <==> r.result is Success,
        has_key(response_fields(r), "error"@) <==> r.result is Error,
        has_key(response_fields(r), "result"@) != has_key(response_fields(r), "error"@),
{
    lemma_response_fields(r);
}

/// Law: an object holding both of `result` and `error`, or neither, decodes
/// to nothing.
pub proof fn lemma_reject_bad_outcome(fs: Seq<(Seq<char>, JsonV)>)
    requires
        has_key(fs, "result"@) == has_key(fs, "error"@),
    ensures
        response_of_jv(JsonV::Obj(fs)) is None,
{
}

/// Law: a single response serializes as a JSON object, a batch — empty or
/// not — as a JSON array.
pub proof fn lemma_batch_shape(b: ResponseV)
    ensures
        b is Single ==> batch_jv(b) is Obj,
        b is Batch ==> batch_jv(b) is Arr,
{
}

/// The exact entries of an envelope's wire object, by case on the identifier
/// and the outcome.
proof fn lemma_response_fields(r: RpcResponseV)
    ensures
        ({
            let fs = response_fields(r);
            &&& fs[0] == ("jsonrpc"@, JsonV::Str("2.0"@))
            &&& match r.id {
                Option::Some(i) => fs.len() == 3 && fs[1] == ("id"@, id_jv(i)),
                Option::None => fs.len() == 2,
            }
            &&& match r.result {
                ResponseResultV::Success(p) => fs.last() == ("result"@, p) && !has_key(
                    fs,
                    "error"@,
                ) && has_key(fs, "result"@) && first_val(fs, "result"@) == p,
                ResponseResultV::Error(e) => fs.last() == ("error"@, err_jv(e)) && !has_key(
                    fs,
                    "result"@,
                ) && has_key(fs, "error"@) && first_val(fs, "error"@) == err_jv(e),
            }
            &&& keys_unique(fs)
            &&& has_key(fs, "jsonrpc"@)
            &&& first_val(fs, "jsonrpc"@) == JsonV::Str("2.0"@)
            &&& match r.id {
                Option::Some(i) => has_key(fs, "id"@) && first_val(fs, "id"@) == id_jv(i),
                Option::None => !has_key(fs, "id"@),
            }
        }),
{
    reveal_strlit("jsonrpc");
    reveal_strlit("id");
    reveal_strlit("result");
    reveal_strlit("error");
    assert("jsonrpc"@.len() == 7 && "id"@.len() == 2 && "result"@.len() == 6 && "error"@.len()
        == 5);
    assert("result"@[0] == 'r' && "error"@[0] == 'e');
    let fs = response_fields(r);
    let outcome: (Seq<char>, JsonV) = match r.result {
        ResponseResultV::Success(p) => ("result"@, p),
        ResponseResultV::Error(e) => ("error"@, err_jv(e)),
    };
    match r.id {
        Option::Some(i) => {
            assert(fs =~= seq![("jsonrpc"@, JsonV::Str("2.0"@)), ("id"@, id_jv(i)), outcome]);
            let fs1 = fs.drop_first();
            let fs2 = fs1.drop_first();
            assert(fs1 =~= seq![("id"@, id_jv(i)), outcome]);
            assert(fs2 =~= seq![outcome]);
            assert(first_val(fs, "jsonrpc"@) == JsonV::Str("2.0"@));
            assert(first_val(fs1, "id"@) == id_jv(i));
            assert(first_val(fs, "id"@) == first_val(fs1, "id"@));
            assert(first_val(fs2, outcome.0) == outcome.1);
            assert(first_val(fs1, outcome.0) == first_val(fs2, outcome.0));
            assert(first_val(fs, outcome.0) == first_val(fs1, outcome.0));
            assert(forall|w: int| 0 <= w < 3 ==> (#[trigger] fs[w]).0 == fs[w].0);
        },
        Option::None => {
            assert(fs =~= seq![("jsonrpc"@, JsonV::Str("2.0"@)), outcome]);
            let fs1 = fs.drop_first();
            assert(fs1 =~= seq![outcome]);
            assert(first_val(fs, "jsonrpc"@) == JsonV::Str("2.0"@));
            assert(first_val(fs1, outcome.0) == outcome.1);
            assert(first_val(fs, outcome.0) == first_val(fs1, outcome.0));
        },
    }
    assert(!has_key(fs, "id"@) || r.id is Some) by {
        if r.id is None && has_key(fs, "id"@) {
            let w = choose|w: int| 0 <= w < fs.len() && (#[trigger] fs[w]).0 == "id"@;
        }
    }
    match r.result {
        ResponseResultV::Success(_) => {
            assert(!has_key(fs, "error"@)) by {
                if has_key(fs, "error"@) {
                    let w = choose|w: int| 0 <= w < fs.len() && (#[trigger] fs[w]).0 == "error"@;
                }
            }
        },
        ResponseResultV::Error(_) => {
            assert(!has_key(fs, "result"@)) by {
                if has_key(fs, "result"@) {
                    let w = choose|w: int| 0 <= w < fs.len() && (#[trigger] fs[w]).0 == "result"@;
                }
            }
        },
    }
}

/// Law: decoding an identifier's wire image gives back the identifier.
pub proof fn lemma_id_round_trip(i: IdV)
    ensures
        id_of_jv(id_jv(i)) == Option::Some(i),
{
}

/// Law: decoding the wire image of an envelope reproduces the envelope
/// exactly — in particular a `null` identifier and an omitted identifier are
/// distinct and do not collapse into one another.
pub proof fn lemma_response_round_trip(r: RpcResponseV)
    ensures
        response_of_jv(response_jv(r)) == Option::Some(r),
{
    lemma_response_fields(r);
    let fs = response_fields(r);
    match r.result {
        ResponseResultV::Success(_) => {},
        ResponseResultV::Error(e) => {
            crate::error::lemma_error_round_trip(e);
        },
    }
    match r.id {
        Option::Some(i) => {
            lemma_id_round_trip(i);
        },
        Option::None => {},
    }
}

} // verus!
