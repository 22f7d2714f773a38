//! Inter-application messages: construction, identity and addressing.
//! Delivery and persistence belong to outside collaborators; what a
//! message holds, how its identifier is minted and how its endpoint
//! keys are written is decided and verified here.

use vstd::prelude::*;
use crate::jsonval::{Json, JsonField, SpecJson, view_json, view_json_fields, spec_obj_get,
    lemma_view_json_fields};
use crate::marshal::obj_get;
use crate::strutil::{str_contains, spec_contains};
use crate::timeutil::{unix_nanos_now, rand_simple, format_hex16, unix_secs_now};
use vstd::string::StringExecFns;

verus! {

/// A message sent between application instances.
#[derive(Debug)]
pub struct InterAppMessage {
    /// Unique message identifier.
    pub id: String,
    /// Source application identifier.
    pub from_app: String,
    /// Source user identifier.
    pub from_user: String,
    /// Destination application identifier.
    pub to_app: String,
    /// Destination user identifier.
    pub to_user: String,
    /// Message type tag.
    pub message_type: String,
    /// Message payload.
    pub payload: Json,
    /// Seconds since the epoch when the message was created.
    pub created_at_secs: u64,
    /// Whether the message has been delivered.
    pub delivered: bool,
}

/// A fresh identifier in the `timestamp-random` shape: two 16-digit
/// hexadecimal halves joined by a dash. Uniqueness rests on the clock
/// and the scrambled seed; the shape alone is promised.
pub fn uuid_v4() -> (r: String)
    ensures
        r@.len() == 33,
        r@[16] == '-',
{
    let t = unix_nanos_now();
    let x = rand_simple();
    let a = format_hex16(t);
    let b = format_hex16(x);
    let r = a.concat("-").concat(b.as_str());
    proof {
        reveal_strlit("-");
        assert(r@.len() == 33);
        assert(r@[16] == '-');
    }
    r
}

impl InterAppMessage {
    /// Builds a message: a fresh identifier, the given routing and
    /// payload, the clock's timestamp, not yet delivered.
    pub fn new(
        from_app: &str,
        from_user: &str,
        to_app: &str,
        to_user: &str,
        message_type: &str,
        payload: Json,
    ) -> (r: InterAppMessage)
        ensures
            r.id@.len() == 33,
            r.from_app@ == from_app@,
            r.from_user@ == from_user@,
            r.to_app@ == to_app@,
            r.to_user@ == to_user@,
            r.message_type@ == message_type@,
            r.payload@ == payload@,
            r.delivered == false,
    {
        let r = InterAppMessage {
            id: uuid_v4(),
            from_app: from_app.to_owned(),
            from_user: from_user.to_owned(),
            to_app: to_app.to_owned(),
            to_user: to_user.to_owned(),
            message_type: message_type.to_owned(),
            payload,
            created_at_secs: unix_secs_now(),
            delivered: false,
        };
        r
    }

    /// The recipient endpoint key, `app:user`.
    pub fn recipient_key(&self) -> (r: String)
        ensures
            r@ == self.to_app@ + ":"@ + self.to_user@,
    {
        self.to_app.clone().concat(":").concat(self.to_user.as_str())
    }

    /// The sender endpoint key, `app:user`.
    pub fn sender_key(&self) -> (r: String)
        ensures
            r@ == self.from_app@ + ":"@ + self.from_user@,
    {
        self.from_app.clone().concat(":").concat(self.from_user.as_str())
    }
}

/// Whether an application is a mailbox-kind one: its identifier names
/// mail.
pub open spec fn spec_is_mailbox(app_id: Seq<char>) -> bool {
    spec_contains(app_id, "mailbox"@) || spec_contains(app_id, "mail"@)
}

/// What one string-valued payload field reads as, with a fallback.
pub open spec fn spec_payload_str(
    payload: SpecJson,
    key: Seq<char>,
    fallback: Seq<char>,
) -> Seq<char> {
    match payload {
        SpecJson::Obj(entries) => match spec_obj_get(entries, key) {
            Some(SpecJson::Str(s)) => s,
            _ => fallback,
        },
        _ => fallback,
    }
}

/// The arguments a mailbox application's receive call is handed when a
/// message arrives: the payload's own fields where present, the
/// envelope's routing as the fallback. A message for any other kind of
/// application is not handled.
pub fn mailbox_delivery_params(app_id: &str, username: &str, message: &InterAppMessage) -> (r:
    Option<Json>)
    ensures
        (r is Some) == spec_is_mailbox(app_id@),
        r matches Some(params) ==> (params@ matches SpecJson::Obj(fields) && fields.len() == 4
            && fields[0] == (
            "sender"@,
            SpecJson::Str(spec_payload_str(message.payload@, "sender"@, message.from_user@)),
        ) && fields[1] == (
            "recipient"@,
            SpecJson::Str(spec_payload_str(message.payload@, "recipient"@, username@)),
        ) && fields[2] == (
            "subject"@,
            SpecJson::Str(spec_payload_str(message.payload@, "subject"@, ""@)),
        ) && fields[3] == (
            "content"@,
            SpecJson::Str(spec_payload_str(message.payload@, "content"@, ""@)),
        )),
{
    if !(str_contains(app_id, "mailbox") || str_contains(app_id, "mail")) {
        return None;
    }
    let sender = payload_str(&message.payload, "sender", message.from_user.as_str());
    let recipient = payload_str(&message.payload, "recipient", username);
    let subject = payload_str(&message.payload, "subject", "");
    let content = payload_str(&message.payload, "content", "");
    let ghost sv = sender@;
    let ghost rv = recipient@;
    let ghost jv = subject@;
    let ghost cv = content@;
    let mut fields: Vec<JsonField> = Vec::new();
    fields.push(JsonField { name: "sender".to_owned(), value: Json::Str(sender) });
    fields.push(JsonField { name: "recipient".to_owned(), value: Json::Str(recipient) });
    fields.push(JsonField { name: "subject".to_owned(), value: Json::Str(subject) });
    fields.push(JsonField { name: "content".to_owned(), value: Json::Str(content) });
    let params = Json::Obj(fields);
    proof {
        lemma_view_json_fields(fields@);
        assert(fields@[0].name@ == "sender"@ && view_json(fields@[0].value) == SpecJson::Str(sv));
        assert(fields@[1].name@ == "recipient"@ && view_json(fields@[1].value) == SpecJson::Str(
            rv,
        ));
        assert(fields@[2].name@ == "subject"@ && view_json(fields@[2].value) == SpecJson::Str(
            jv,
        ));
        assert(fields@[3].name@ == "content"@ && view_json(fields@[3].value) == SpecJson::Str(
            cv,
        ));
        assert(view_json_fields(fields@)[0] == ("sender"@, SpecJson::Str(sv)));
        assert(view_json_fields(fields@)[1] == ("recipient"@, SpecJson::Str(rv)));
        assert(view_json_fields(fields@)[2] == ("subject"@, SpecJson::Str(jv)));
        assert(view_json_fields(fields@)[3] == ("content"@, SpecJson::Str(cv)));
    }
    Some(params)
}

/// One string field of the payload, or the fallback.
fn payload_str(payload: &Json, key: &str, fallback: &str) -> (r: String)
    ensures
        r@ == spec_payload_str(payload@, key@, fallback@),
{
    match payload {
        Json::Obj(entries) => match obj_get(entries, key) {
            Option::Some(Json::Str(s)) => s.clone(),
            _ => fallback.to_owned(),
        },
        _ => fallback.to_owned(),
    }
}

/// Whether a delivery reply reports success: its `result` field is the
/// boolean true, anything else is a failed delivery.
pub fn delivery_succeeded(reply: &Json) -> (r: bool)
    ensures
        r == (match reply@ {
            SpecJson::Obj(entries) => spec_obj_get(entries, "result"@) == Some(
                SpecJson::Bool(true),
            ),
            _ => false,
        }),
{
    match reply {
        Json::Obj(entries) => match obj_get(entries, "result") {
            Option::Some(Json::Bool(b)) => *b,
            _ => false,
        },
        _ => false,
    }
}

} // verus!
