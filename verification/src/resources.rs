//! The built-in resource: fixed demonstration data under a fixed
//! address.

use vstd::prelude::*;
use crate::jsonval::{Json, JsonField, SpecJson, view_json, view_json_fields, view_json_seq,
    spec_obj_get, lemma_view_json_fields, lemma_view_json_seq};
use crate::marshal::obj_get;
use crate::strutil::str_eq;
use vstd::string::StringExecFns;
use crate::types::{ResourceMetadata, ResourceContent};

verus! {

/// The stand-in resource.
#[derive(Debug)]
pub struct MockResource {
    pub name: String,
    pub uri: String,
}

impl MockResource {
    /// Named `mock_resource`, at its fixed address.
    pub fn new() -> (r: Self)
        ensures
            r.name@ == "mock_resource"@,
            r.uri@ == "mock://example/resource"@,
    {
        MockResource { name: "mock_resource".to_owned(), uri: "mock://example/resource".to_owned() }
    }

    /// The resource's published metadata.
    pub fn metadata(&self) -> (r: ResourceMetadata)
        ensures
            r.name@ == self.name@,
            r.uri@ == self.uri@,
            r.mime_type matches Some(m) && m@ == "application/json"@,
    {
        ResourceMetadata {
            name: self.name.clone(),
            description: "A mock resource for demonstration purposes".to_owned(),
            mime_type: Some("application/json".to_owned()),
            uri: self.uri.clone(),
        }
    }

    /// Reads the fixed demonstration content: a message and three
    /// items.
    pub fn read(&self) -> (r: ResourceContent)
        ensures
            r.uri@ == self.uri@,
            r.metadata is None,
            r.content@ matches SpecJson::Obj(fields) && fields.len() == 2 && fields[0] == (
                "message"@,
                SpecJson::Str("This is mock resource data"@),
            ) && fields[1].0 == "items"@ && (fields[1].1 matches SpecJson::Arr(items)
                && items.len() == 3 && items[0] == SpecJson::Str("item1"@) && items[1]
                == SpecJson::Str("item2"@) && items[2] == SpecJson::Str("item3"@)),
    {
        let mut items: Vec<Json> = Vec::new();
        items.push(Json::Str("item1".to_owned()));
        items.push(Json::Str("item2".to_owned()));
        items.push(Json::Str("item3".to_owned()));
        let ghost iv = items@;
        let mut fields: Vec<JsonField> = Vec::new();
        fields.push(
            JsonField {
                name: "message".to_owned(),
                value: Json::Str("This is mock resource data".to_owned()),
            },
        );
        fields.push(JsonField { name: "items".to_owned(), value: Json::Arr(items) });
        let content = Json::Obj(fields);
        proof {
            lemma_view_json_seq(iv);
            assert(view_json_seq(iv).len() == 3);
            assert(view_json(iv[0]) == SpecJson::Str("item1"@));
            assert(view_json(iv[1]) == SpecJson::Str("item2"@));
            assert(view_json(iv[2]) == SpecJson::Str("item3"@));
            lemma_view_json_fields(fields@);
            assert(fields@[0].name@ == "message"@ && view_json(fields@[0].value)
                == SpecJson::Str("This is mock resource data"@));
            assert(fields@[1].name@ == "items"@ && view_json(fields@[1].value)
                == SpecJson::Arr(view_json_seq(iv)));
            assert(view_json_fields(fields@)[0] == (
                "message"@,
                SpecJson::Str("This is mock resource data"@),
            ));
            assert(view_json_fields(fields@)[1] == ("items"@, SpecJson::Arr(view_json_seq(iv))));
        }
        ResourceContent { uri: self.uri.clone(), content, metadata: None }
    }
}

/// The kind of resource a component application exposes.
#[derive(Debug, Clone, Copy, PartialEq, Eq, Structural)]
pub enum WassetteResourceType {
    /// A user's inbox, for mailbox-kind applications.
    Inbox,
    /// Generic application state.
    AppState,
}

/// The address of a component application's resource: an inbox lives at
/// `mailbox://user/inbox`, generic state at `app://user/state`.
pub fn component_resource_uri(
    kind: WassetteResourceType,
    app_id: &str,
    username: &str,
) -> (r: String)
    ensures
        r@ == (match kind {
            WassetteResourceType::Inbox => "mailbox://"@ + username@ + "/inbox"@,
            WassetteResourceType::AppState => app_id@ + "://"@ + username@ + "/state"@,
        }),
{
    match kind {
        WassetteResourceType::Inbox => {
            let r = "mailbox://".to_owned().concat(username).concat("/inbox");
            proof {
                assert(r@ =~= "mailbox://"@ + username@ + "/inbox"@);
            }
            r
        },
        WassetteResourceType::AppState => {
            let r = app_id.to_owned().concat("://").concat(username).concat("/state");
            proof {
                assert(r@ =~= app_id@ + "://"@ + username@ + "/state"@);
            }
            r
        },
    }
}

/// The human-facing name of a component application's resource.
pub fn component_resource_name(
    kind: WassetteResourceType,
    app_id: &str,
    username: &str,
) -> (r: String)
    ensures
        r@ == (match kind {
            WassetteResourceType::Inbox => username@ + "'s Inbox"@,
            WassetteResourceType::AppState => app_id@ + " - "@ + username@ + " State"@,
        }),
{
    match kind {
        WassetteResourceType::Inbox => {
            let r = username.to_owned().concat("'s Inbox");
            proof {
                assert(r@ =~= username@ + "'s Inbox"@);
            }
            r
        },
        WassetteResourceType::AppState => {
            let r = app_id.to_owned().concat(" - ").concat(username).concat(" State");
            proof {
                assert(r@ =~= app_id@ + " - "@ + username@ + " State"@);
            }
            r
        },
    }
}

/// Whether a tool's execution changes inbox state and so should fan a
/// resource update out.
pub open spec fn spec_triggers_resource_update(name: Seq<char>) -> bool {
    name == "send-message"@ || name == "delete-message"@ || name == "mark-as-read"@ || name
        == "clear-inbox"@ || name == "receive-message"@
}

pub fn triggers_resource_update(tool_name: &str) -> (r: bool)
    ensures
        r == spec_triggers_resource_update(tool_name@),
{
    str_eq(tool_name, "send-message") || str_eq(tool_name, "delete-message") || str_eq(
        tool_name,
        "mark-as-read",
    ) || str_eq(tool_name, "clear-inbox") || str_eq(tool_name, "receive-message")
}

/// The inbox address a tool's execution updates: sending updates the
/// recipient named in the arguments, the other inbox tools update the
/// calling user's own inbox, and any other tool updates nothing.
pub fn updated_resource_uri(tool_name: &str, params: &Json, username: &str) -> (r: Option<
    String,
>)
    ensures
        ({
            let inbox_of = |who: Seq<char>| "mailbox://"@ + who + "/inbox"@;
            if tool_name@ == "send-message"@ {
                match (match params@ {
                    SpecJson::Obj(entries) => spec_obj_get(entries, "recipient"@),
                    _ => None,
                }) {
                    Some(SpecJson::Str(who)) => r matches Some(u) && u@ == inbox_of(who),
                    _ => r is None,
                }
            } else if spec_triggers_resource_update(tool_name@) {
                r matches Some(u) && u@ == inbox_of(username@)
            } else {
                r is None
            }
        }),
{
    if str_eq(tool_name, "send-message") {
        let found: Option<&Json> = match params {
            Json::Obj(entries) => obj_get(entries, "recipient"),
            _ => None,
        };
        match found {
            Option::Some(Json::Str(who)) => Some(
                component_resource_uri(WassetteResourceType::Inbox, "", who.as_str()),
            ),
            _ => None,
        }
    } else if triggers_resource_update(tool_name) {
        Some(component_resource_uri(WassetteResourceType::Inbox, "", username))
    } else {
        None
    }
}

} // verus!
