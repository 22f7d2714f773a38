//! The built-in prompt: a deterministic conversation starter about a
//! caller-chosen topic.

use vstd::prelude::*;
use crate::jsonval::{Json, SpecJson, spec_obj_get};
use crate::marshal::obj_get;
use crate::types::{PromptMetadata, PromptArgument, PromptResult, PromptMessage};
use vstd::string::StringExecFns;

verus! {

/// The stand-in prompt.
#[derive(Debug)]
pub struct MockPrompt {
    pub name: String,
}

/// The system line of the generated conversation.
pub open spec fn spec_prompt_system(topic: Seq<char>) -> Seq<char> {
    "You are a helpful assistant discussing "@ + topic
        + ". Provide clear and concise responses."@
}

/// The opening user line of the generated conversation.
pub open spec fn spec_prompt_user(topic: Seq<char>) -> Seq<char> {
    "Let's start a conversation about "@ + topic + "."@
}

impl MockPrompt {
    /// Named `mock_prompt`.
    pub fn new() -> (r: Self)
        ensures
            r.name@ == "mock_prompt"@,
    {
        MockPrompt { name: "mock_prompt".to_owned() }
    }

    /// The prompt's published metadata: one optional `topic` argument.
    pub fn metadata(&self) -> (r: PromptMetadata)
        ensures
            r.name@ == self.name@,
            r.arguments@.len() == 1,
            r.arguments@[0].name@ == "topic"@,
            r.arguments@[0].required == false,
    {
        let mut arguments: Vec<PromptArgument> = Vec::new();
        arguments.push(
            PromptArgument {
                name: "topic".to_owned(),
                description: "Topic for the conversation".to_owned(),
                required: false,
            },
        );
        PromptMetadata {
            name: self.name.clone(),
            description: "A mock prompt that generates a conversation starter".to_owned(),
            arguments,
        }
    }

    /// Generates the two-message conversation starter about the given
    /// topic, or about a general discussion without one.
    pub fn generate(&self, args: &Json) -> (r: PromptResult)
        ensures
            ({
                let topic = match args@ {
                    SpecJson::Obj(entries) => match spec_obj_get(entries, "topic"@) {
                        Some(SpecJson::Str(s)) => s,
                        _ => "general discussion"@,
                    },
                    _ => "general discussion"@,
                };
                r.messages@.len() == 2 && r.messages@[0].role@ == "system"@
                    && r.messages@[0].content@ == spec_prompt_system(topic)
                    && r.messages@[1].role@ == "user"@ && r.messages@[1].content@
                    == spec_prompt_user(topic)
            }),
    {
        let found: Option<&Json> = match args {
            Json::Obj(entries) => obj_get(entries, "topic"),
            _ => None,
        };
        let topic: &str = match found {
            Option::Some(Json::Str(s)) => s.as_str(),
            _ => "general discussion",
        };
        let ghost tv = topic@;
        let sys = "You are a helpful assistant discussing ".to_owned().concat(topic).concat(
            ". Provide clear and concise responses.",
        );
        let usr = "Let's start a conversation about ".to_owned().concat(topic).concat(".");
        proof {
            assert(sys@ =~= spec_prompt_system(tv));
            assert(usr@ =~= spec_prompt_user(tv));
        }
        let mut messages: Vec<PromptMessage> = Vec::new();
        messages.push(PromptMessage { role: "system".to_owned(), content: sys });
        messages.push(PromptMessage { role: "user".to_owned(), content: usr });
        PromptResult { messages }
    }
}

} // verus!
