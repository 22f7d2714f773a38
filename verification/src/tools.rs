//! The built-in tools: a greeter, a search stand-in and a fetch
//! stand-in. Their replies are deterministic up to the clock's
//! timestamp, and fully specified: each execution's output is pinned to
//! the inputs and the timestamp it was stamped with.

use vstd::prelude::*;
use crate::jsonval::{Json, JsonField, JsonNum, SpecJson, view_json, view_json_fields,
    view_json_seq, lemma_view_json_fields, spec_obj_get};
use crate::marshal::obj_get;
use crate::types::{ToolParameter, ToolResult};
use crate::strutil::{str_contains, spec_contains};
use crate::timeutil::{unix_secs_now, civil_from_days, format_date};
use vstd::string::StringExecFns;

verus! {

/// Tool metadata: a name, a description, and the declared parameters.
#[derive(Debug, Clone)]
pub struct ToolMetadata {
    pub name: String,
    pub description: String,
    pub parameters: Vec<ToolParameter>,
}

/// A plain timestamp for stamped replies: today's date. The value
/// follows the clock.
fn today_stamp() -> (r: String)
    ensures
        true,
{
    let secs = unix_secs_now();
    let days = (secs / 86400) % 0x1_0000_0000;
    let (y, m, d) = civil_from_days(days);
    format_date(y, m, d)
}

/// The greeter tool.
#[derive(Debug)]
pub struct HelloWorldTool {
    pub name: String,
}

/// The greeting of a caller's name.
pub open spec fn spec_greeting(name: Seq<char>) -> Seq<char> {
    "Hello, "@ + name + "! Welcome to MeCP."@
}

impl HelloWorldTool {
    /// Named `hello_world`.
    pub fn new() -> (r: Self)
        ensures
            r.name@ == "hello_world"@,
    {
        HelloWorldTool { name: "hello_world".to_owned() }
    }

    /// The tool's published metadata: one optional `name` parameter.
    pub fn metadata(&self) -> (r: ToolMetadata)
        ensures
            r.name@ == self.name@,
            r.parameters@.len() == 1,
            r.parameters@[0].name@ == "name"@,
            r.parameters@[0].required == false,
            r.parameters@[0].param_type@ == "string"@,
    {
        let mut parameters: Vec<ToolParameter> = Vec::new();
        parameters.push(
            ToolParameter {
                name: "name".to_owned(),
                description: "Name to greet".to_owned(),
                required: false,
                param_type: "string".to_owned(),
            },
        );
        ToolMetadata {
            name: self.name.clone(),
            description: "A simple hello world tool that greets users".to_owned(),
            parameters,
        }
    }

    /// Greets the caller: the `name` argument, or `World` without one,
    /// folded into the fixed greeting, with a timestamp.
    pub fn execute(&self, params: &Json) -> (r: ToolResult)
        ensures
            r.success == true,
            r.error is None,
            ({
                let who = match params@ {
                    SpecJson::Obj(entries) => match spec_obj_get(entries, "name"@) {
                        Some(SpecJson::Str(s)) => s,
                        _ => "World"@,
                    },
                    _ => "World"@,
                };
                r.output@ matches SpecJson::Obj(fields) && fields.len() == 2 && fields[0] == (
                    "message"@,
                    SpecJson::Str(spec_greeting(who)),
                ) && fields[1].0 == "timestamp"@
            }),
    {
        let found: Option<&Json> = match params {
            Json::Obj(entries) => obj_get(entries, "name"),
            _ => None,
        };
        let who: &str = match found {
            Option::Some(Json::Str(s)) => s.as_str(),
            _ => "World",
        };
        let ghost whov = who@;
        let message = "Hello, ".to_owned().concat(who).concat("! Welcome to MeCP.");
        proof {
            assert(message@ =~= spec_greeting(whov));
        }
        let ghost mv = message@;
        let ts = today_stamp();
        let mut fields: Vec<JsonField> = Vec::new();
        fields.push(JsonField { name: "message".to_owned(), value: Json::Str(message) });
        fields.push(JsonField { name: "timestamp".to_owned(), value: Json::Str(ts) });
        let output = Json::Obj(fields);
        proof {
            lemma_view_json_fields(fields@);
            assert(fields@[0].name@ == "message"@ && view_json(fields@[0].value)
                == SpecJson::Str(mv));
            assert(fields@[1].name@ == "timestamp"@);
            assert(view_json_fields(fields@).len() == 2);
            assert(view_json_fields(fields@)[0] == ("message"@, SpecJson::Str(mv)));
            assert(view_json_fields(fields@)[1].0 == "timestamp"@);
        }
        ToolResult { success: true, output, error: None }
    }
}

/// The search stand-in tool: deterministic results about the query.
#[derive(Debug)]
pub struct SearchTool {
    pub name: String,
}

/// The title, address and snippet of the result at a rank.
pub open spec fn spec_search_title(q: Seq<char>, i: int) -> Seq<char> {
    if i == 0 {
        "Result 1: Information about "@ + q
    } else if i == 1 {
        "Result 2: Deep dive into "@ + q
    } else if i == 2 {
        "Result 3: "@ + q + " - Complete Guide"@
    } else if i == 3 {
        "Result 4: "@ + q + " Explained"@
    } else {
        "Result 5: Advanced "@ + q + " Techniques"@
    }
}

impl SearchTool {
    /// Named `search`.
    pub fn new() -> (r: Self)
        ensures
            r.name@ == "search"@,
    {
        SearchTool { name: "search".to_owned() }
    }

    /// The tool's published metadata: a required `query` and an
    /// optional `max_results`.
    pub fn metadata(&self) -> (r: ToolMetadata)
        ensures
            r.name@ == self.name@,
            r.parameters@.len() == 2,
            r.parameters@[0].name@ == "query"@,
            r.parameters@[0].required == true,
            r.parameters@[1].name@ == "max_results"@,
            r.parameters@[1].required == false,
    {
        let mut parameters: Vec<ToolParameter> = Vec::new();
        parameters.push(
            ToolParameter {
                name: "query".to_owned(),
                description: "Search query string".to_owned(),
                required: true,
                param_type: "string".to_owned(),
            },
        );
        parameters.push(
            ToolParameter {
                name: "max_results".to_owned(),
                description: "Maximum number of results to return".to_owned(),
                required: false,
                param_type: "number".to_owned(),
            },
        );
        ToolMetadata {
            name: self.name.clone(),
            description: "Search for information and return relevant results with URLs".to_owned(),
            parameters,
        }
    }

    /// Searches: fails without a string `query`; otherwise up to five
    /// fixed results about the query, capped at `max_results`, each
    /// with its rank's title.
    pub fn execute(&self, params: &Json) -> (r: ToolResult)
        ensures
            ({
                let q = match params@ {
                    SpecJson::Obj(entries) => match spec_obj_get(entries, "query"@) {
                        Some(SpecJson::Str(s)) => Some(s),
                        _ => None,
                    },
                    _ => None,
                };
                match q {
                    None => r.success == false && (r.error matches Some(e) && e@
                        == "Missing required parameter: query"@),
                    Some(qs) => r.success == true && r.error is None && (
                    r.output@ matches SpecJson::Obj(fields) && fields.len() == 3 && fields[0].0
                        == "query"@ && fields[0].1 == SpecJson::Str(qs) && fields[1].0
                        == "total_results"@ && fields[2].0 == "results"@ && (
                    fields[2].1 matches SpecJson::Arr(rs) && rs.len() <= 5 && (forall|i: int|
                        0 <= i < rs.len() ==> ((#[trigger] rs[i]) matches SpecJson::Obj(rf)
                            && rf.len() == 4 && rf[0] == (
                            "title"@,
                            SpecJson::Str(spec_search_title(qs, i)),
                        ))))),
                }
            }),
    {
        let q: Option<&Json> = match params {
            Json::Obj(entries) => obj_get(entries, "query"),
            _ => None,
        };
        let query: &str = match q {
            Option::Some(Json::Str(s)) => s.as_str(),
            _ => {
                return ToolResult {
                    success: false,
                    output: Json::Null,
                    error: Some("Missing required parameter: query".to_owned()),
                };
            },
        };
        let max_results: usize = match params {
            Json::Obj(entries) => match obj_get(entries, "max_results") {
                Option::Some(Json::Num(JsonNum::Int(n))) => {
                    if 0 <= *n && *n <= 5 {
                        *n as usize
                    } else if *n > 5 {
                        5
                    } else {
                        0
                    }
                },
                _ => 5,
            },
            _ => 5,
        };
        let mut rs: Vec<Json> = Vec::new();
        let mut i: usize = 0;
        while i < max_results && i < 5
            invariant
                i <= 5,
                rs@.len() == i as int,
                forall|k: int|
                    0 <= k < i as int ==> ((#[trigger] view_json_seq(rs@)[k]) matches SpecJson::Obj(
                        rf,
                    ) && rf.len() == 4 && rf[0] == (
                        "title"@,
                        SpecJson::Str(spec_search_title(query@, k)),
                    )),
                view_json_seq(rs@).len() == i as int,
            decreases 5 - i,
        {
            let title: String = if i == 0 {
                "Result 1: Information about ".to_owned().concat(query)
            } else if i == 1 {
                "Result 2: Deep dive into ".to_owned().concat(query)
            } else if i == 2 {
                "Result 3: ".to_owned().concat(query).concat(" - Complete Guide")
            } else if i == 3 {
                "Result 4: ".to_owned().concat(query).concat(" Explained")
            } else {
                "Result 5: Advanced ".to_owned().concat(query).concat(" Techniques")
            };
            proof {
                assert(title@ =~= spec_search_title(query@, i as int));
            }
            let url = "https://example.com/result".to_owned().concat(
                crate::numparse::format_u64((i + 1) as u64).as_str(),
            );
            let snippet = "Mock search result about ".to_owned().concat(query);
            let score: u64 = if i == 0 {
                0x3FEE_6666_6666_6666
            } else if i == 1 {
                0x3FEB_D70A_3D70_A3D7
            } else if i == 2 {
                0x3FEA_3D70_A3D7_0A3D
            } else if i == 3 {
                0x3FE8_F5C2_8F5C_28F6
            } else {
                0x3FE8_0000_0000_0000
            };
            let mut rf: Vec<JsonField> = Vec::new();
            rf.push(JsonField { name: "title".to_owned(), value: Json::Str(title) });
            rf.push(JsonField { name: "url".to_owned(), value: Json::Str(url) });
            rf.push(JsonField { name: "snippet".to_owned(), value: Json::Str(snippet) });
            rf.push(
                JsonField {
                    name: "relevance_score".to_owned(),
                    value: Json::Num(JsonNum::FloatBits(score)),
                },
            );
            let item = Json::Obj(rf);
            proof {
                lemma_view_json_fields(rf@);
                crate::registry::lemma_view_json_seq_push(rs@, item);
            }
            rs.push(item);
            i += 1;
        }
        let total = rs.len();
        let ghost rsv = view_json_seq(rs@);
        let ghost qv = query@;
        let mut fields: Vec<JsonField> = Vec::new();
        fields.push(JsonField { name: "query".to_owned(), value: Json::Str(query.to_owned()) });
        fields.push(
            JsonField {
                name: "total_results".to_owned(),
                value: Json::Num(JsonNum::Int(total as i64)),
            },
        );
        fields.push(JsonField { name: "results".to_owned(), value: Json::Arr(rs) });
        let output = Json::Obj(fields);
        proof {
            lemma_view_json_fields(fields@);
            assert(fields@[0].name@ == "query"@ && view_json(fields@[0].value)
                == SpecJson::Str(qv));
            assert(fields@[1].name@ == "total_results"@);
            assert(fields@[2].name@ == "results"@ && view_json(fields@[2].value)
                == SpecJson::Arr(rsv));
            assert(view_json_fields(fields@).len() == 3);
            assert(view_json_fields(fields@)[0] == ("query"@, SpecJson::Str(qv)));
            assert(view_json_fields(fields@)[1].0 == "total_results"@);
            assert(view_json_fields(fields@)[2] == ("results"@, SpecJson::Arr(rsv)));
        }
        ToolResult { success: true, output, error: None }
    }
}

/// The fetch stand-in tool: deterministic content for an address.
#[derive(Debug)]
pub struct FetchTool {
    pub name: String,
}

impl FetchTool {
    /// Named `fetch`.
    pub fn new() -> (r: Self)
        ensures
            r.name@ == "fetch"@,
    {
        FetchTool { name: "fetch".to_owned() }
    }

    /// The tool's published metadata: one required `url` parameter.
    pub fn metadata(&self) -> (r: ToolMetadata)
        ensures
            r.name@ == self.name@,
            r.parameters@.len() == 1,
            r.parameters@[0].name@ == "url"@,
            r.parameters@[0].required == true,
    {
        let mut parameters: Vec<ToolParameter> = Vec::new();
        parameters.push(
            ToolParameter {
                name: "url".to_owned(),
                description: "URL to fetch content from".to_owned(),
                required: true,
                param_type: "string".to_owned(),
            },
        );
        ToolMetadata {
            name: self.name.clone(),
            description: "Fetch content from a URL".to_owned(),
            parameters,
        }
    }

    /// Fetches: fails without a string `url`; otherwise fixed content,
    /// titled after the result the address names.
    pub fn execute(&self, params: &Json) -> (r: ToolResult)
        ensures
            ({
                let u = match params@ {
                    SpecJson::Obj(entries) => match spec_obj_get(entries, "url"@) {
                        Some(SpecJson::Str(s)) => Some(s),
                        _ => None,
                    },
                    _ => None,
                };
                match u {
                    None => r.success == false && (r.error matches Some(e) && e@
                        == "Missing required parameter: url"@),
                    Some(us) => r.success == true && r.error is None && (
                    r.output@ matches SpecJson::Obj(fields) && fields.len() == 4 && fields[0]
                        == ("url"@, SpecJson::Str(us)) && fields[1].0 == "title"@ && (
                    fields[1].1 == SpecJson::Str(
                        if spec_contains(us, "result1"@) {
                            "Result 1 Content"@
                        } else if spec_contains(us, "result2"@) {
                            "Result 2 Content"@
                        } else if spec_contains(us, "result3"@) {
                            "Result 3 Content"@
                        } else if spec_contains(us, "result4"@) {
                            "Result 4 Content"@
                        } else if spec_contains(us, "result5"@) {
                            "Result 5 Content"@
                        } else {
                            "Fetched Content"@
                        },
                    )) && fields[2].0 == "content"@ && fields[3].0 == "status"@ && fields[3].1
                        == SpecJson::Str("success"@)),
                }
            }),
    {
        let u: Option<&Json> = match params {
            Json::Obj(entries) => obj_get(entries, "url"),
            _ => None,
        };
        let url: &str = match u {
            Option::Some(Json::Str(s)) => s.as_str(),
            _ => {
                return ToolResult {
                    success: false,
                    output: Json::Null,
                    error: Some("Missing required parameter: url".to_owned()),
                };
            },
        };
        let title: String = if str_contains(url, "result1") {
            "Result 1 Content".to_owned()
        } else if str_contains(url, "result2") {
            "Result 2 Content".to_owned()
        } else if str_contains(url, "result3") {
            "Result 3 Content".to_owned()
        } else if str_contains(url, "result4") {
            "Result 4 Content".to_owned()
        } else if str_contains(url, "result5") {
            "Result 5 Content".to_owned()
        } else {
            "Fetched Content".to_owned()
        };
        let ghost uv = url@;
        let ghost tv = title@;
        let content = "Mock content fetched from ".to_owned().concat(url);
        let mut fields: Vec<JsonField> = Vec::new();
        fields.push(JsonField { name: "url".to_owned(), value: Json::Str(url.to_owned()) });
        fields.push(JsonField { name: "title".to_owned(), value: Json::Str(title) });
        fields.push(JsonField { name: "content".to_owned(), value: Json::Str(content) });
        fields.push(JsonField { name: "status".to_owned(), value: Json::Str("success".to_owned()) });
        let output = Json::Obj(fields);
        proof {
            lemma_view_json_fields(fields@);
            assert(fields@[0].name@ == "url"@ && view_json(fields@[0].value) == SpecJson::Str(
                uv,
            ));
            assert(fields@[1].name@ == "title"@ && view_json(fields@[1].value) == SpecJson::Str(
                tv,
            ));
            assert(fields@[2].name@ == "content"@);
            assert(fields@[3].name@ == "status"@ && view_json(fields@[3].value)
                == SpecJson::Str("success"@));
            assert(view_json_fields(fields@).len() == 4);
            assert(view_json_fields(fields@)[0] == ("url"@, SpecJson::Str(uv)));
            assert(view_json_fields(fields@)[1] == ("title"@, SpecJson::Str(tv)));
            assert(view_json_fields(fields@)[2].0 == "content"@);
            assert(view_json_fields(fields@)[3] == ("status"@, SpecJson::Str("success"@)));
        }
        ToolResult { success: true, output, error: None }
    }
}

} // verus!
