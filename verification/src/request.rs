//! Building the outbound request for one conversation turn.
//!
//! The `ApiClient` holds the read-only configuration — the credential and
//! the model identifier — and frames the request body the remote service
//! expects: one JSON document carrying the model, the output-size bound,
//! the optional system directive, the message history as role/content
//! pairs, and the streaming flag. The body is assembled here, byte for
//! byte, against a specification of the exact text; the program only puts
//! it on the wire.

use vstd::prelude::*;

use crate::conversation::{Message, MessageModel, Role};
use crate::text::push_char;

verus! {

/// The model used when the environment names none. Deployments set the
/// service's exact model identifier through the environment (the
/// constructor's `model_env`); this built-in fallback is the bare model
/// name.
pub open spec fn sp_default_model() -> Seq<char> {
    "sonnet-4-20250514"@
}

/// The hexadecimal digit character for `d` (lower case).
pub open spec fn sp_hex_char(d: u32) -> char {
    if d < 10 {
        ((48 + d) as u8) as char
    } else {
        ((87 + d) as u8) as char
    }
}

/// The JSON escape of one character: the two-character escapes for quote,
/// backslash and the common controls, `\u00XX` for the other controls,
/// and the character itself otherwise.
pub open spec fn sp_esc_char(c: char) -> Seq<char> {
    if c == '"' {
        seq!['\\', '"']
    } else if c == '\\' {
        seq!['\\', '\\']
    } else if c == '\n' {
        seq!['\\', 'n']
    } else if c == '\r' {
        seq!['\\', 'r']
    } else if c == '\t' {
        seq!['\\', 't']
    } else if (c as u32) < 32 {
        seq!['\\', 'u', '0', '0', sp_hex_char((c as u32) / 16), sp_hex_char((c as u32) % 16)]
    } else {
        seq![c]
    }
}

/// The JSON escape of a string's characters.
pub open spec fn sp_escape(s: Seq<char>) -> Seq<char>
    decreases s.len(),
{
    if s.len() == 0 {
        Seq::empty()
    } else {
        sp_esc_char(s[0]) + sp_escape(s.skip(1))
    }
}

/// The wire name of a role.
pub open spec fn sp_role_name(r: Role) -> Seq<char> {
    match r {
        Role::User => "user"@,
        Role::Assistant => "assistant"@,
    }
}

/// One message as a JSON object.
pub open spec fn sp_message_json(m: MessageModel) -> Seq<char> {
    "{\"role\":\""@ + sp_role_name(m.role) + "\",\"content\":\""@ + sp_escape(m.content) + "\"}"@
}

/// The messages from index `i` on, joined with commas.
pub open spec fn sp_messages_from(msgs: Seq<MessageModel>, i: int) -> Seq<char>
    decreases msgs.len() - i,
{
    if !(0 <= i && i < msgs.len()) {
        Seq::empty()
    } else if i + 1 < msgs.len() {
        sp_message_json(msgs[i]) + ","@ + sp_messages_from(msgs, i + 1)
    } else {
        sp_message_json(msgs[i])
    }
}

/// Views of a run of messages.
pub open spec fn msgs_view(msgs: Seq<Message>) -> Seq<MessageModel> {
    msgs.map_values(|m: Message| m@)
}

/// The whole request body: model, output-size bound, optional system
/// directive, message history, and the streaming flag (present only when
/// set, as the service's non-streaming form omits it).
pub open spec fn sp_request_body(
    model: Seq<char>,
    system: Option<Seq<char>>,
    msgs: Seq<MessageModel>,
    stream: bool,
) -> Seq<char> {
    "{\"model\":\""@ + sp_escape(model) + "\",\"max_tokens\":4096"@ + (match system {
        Some(s) => ",\"system\":\""@ + sp_escape(s) + "\""@,
        None => Seq::<char>::empty(),
    }) + ",\"messages\":["@ + sp_messages_from(msgs, 0) + "]"@ + (if stream {
        ",\"stream\":true"@
    } else {
        Seq::<char>::empty()
    }) + "}"@
}

/// The hexadecimal digit character for `d` (see `sp_hex_char`).
fn hex_char(d: u32) -> (c: char)
    requires
        d < 16,
    ensures
        c == sp_hex_char(d),
{
    if d < 10 {
        (48 + d as u8) as char
    } else {
        (87 + d as u8) as char
    }
}

/// Appends the JSON escape of `s`'s characters from index `i` on.
fn escape_from(s: &str, i: usize, out: &mut String)
    requires
        i <= s@.len(),
    ensures
        final(out)@ == old(out)@ + sp_escape(s@.skip(i as int)),
    decreases s@.len() - i,
{
    if i >= s.unicode_len() {
        proof {
            assert(s@.skip(i as int) =~= Seq::<char>::empty());
            assert(old(out)@ + Seq::<char>::empty() =~= old(out)@);
        }
        return ;
    }
    let c = s.get_char(i);
    let ghost prior = out@;
    if c == '"' {
        push_char(out, '\\');
        push_char(out, '"');
    } else if c == '\\' {
        push_char(out, '\\');
        push_char(out, '\\');
    } else if c == '\n' {
        push_char(out, '\\');
        push_char(out, 'n');
    } else if c == '\r' {
        push_char(out, '\\');
        push_char(out, 'r');
    } else if c == '\t' {
        push_char(out, '\\');
        push_char(out, 't');
    } else if (c as u32) < 32 {
        push_char(out, '\\');
        push_char(out, 'u');
        push_char(out, '0');
        push_char(out, '0');
        push_char(out, hex_char((c as u32) / 16));
        push_char(out, hex_char((c as u32) % 16));
    } else {
        push_char(out, c);
    }
    proof {
        assert(out@ =~= prior + sp_esc_char(s@[i as int]));
    }
    escape_from(s, i + 1, out);
    proof {
        assert(s@.skip(i as int)[0] == s@[i as int]);
        assert(s@.skip(i as int).skip(1) =~= s@.skip(i as int + 1));
        assert(prior + (sp_esc_char(s@[i as int]) + sp_escape(s@.skip(i as int + 1))) =~= (prior
            + sp_esc_char(s@[i as int])) + sp_escape(s@.skip(i as int + 1)));
    }
}

/// Appends the JSON objects of the messages from index `i` on.
fn messages_from(msgs: &[Message], i: usize, out: &mut String)
    requires
        i <= msgs@.len(),
    ensures
        final(out)@ == old(out)@ + sp_messages_from(msgs_view(msgs@), i as int),
    decreases msgs@.len() - i,
{
    if i >= msgs.len() {
        proof {
            assert(old(out)@ + sp_messages_from(msgs_view(msgs@), i as int) =~= old(out)@);
        }
        return ;
    }
    let m = &msgs[i];
    let ghost prior = out@;
    out.append("{\"role\":\"");
    match m.role {
        Role::User => out.append("user"),
        Role::Assistant => out.append("assistant"),
    }
    out.append("\",\"content\":\"");
    escape_from(m.content.as_str(), 0, out);
    out.append("\"}");
    proof {
        assert(msgs_view(msgs@)[i as int] == msgs@[i as int]@);
        assert(m.content@.skip(0) =~= m.content@);
        assert(out@ =~= prior + sp_message_json(msgs_view(msgs@)[i as int]));
    }
    if i + 1 < msgs.len() {
        out.append(",");
        let ghost mid = out@;
        proof {
            assert(mid =~= prior + (sp_message_json(msgs_view(msgs@)[i as int]) + ","@));
        }
        messages_from(msgs, i + 1, out);
        proof {
            assert(prior + ((sp_message_json(msgs_view(msgs@)[i as int]) + ","@)
                + sp_messages_from(msgs_view(msgs@), i as int + 1)) =~= out@);
            assert(sp_message_json(msgs_view(msgs@)[i as int]) + ","@ + sp_messages_from(
                msgs_view(msgs@),
                i as int + 1,
            ) =~= (sp_message_json(msgs_view(msgs@)[i as int]) + ","@) + sp_messages_from(
                msgs_view(msgs@),
                i as int + 1,
            ));
        }
    }
}

/// Read-only configuration for talking to the remote service: the
/// credential and the model identifier.
#[derive(Debug)]
pub struct ApiClient {
    pub api_key: String,
    pub model: String,
}

impl ApiClient {
    /// Builds the configuration from the environment's values: without a
    /// credential there is no client; the model falls back to the
    /// default when the environment names none.
    pub fn new(api_key: Option<String>, model_env: Option<String>) -> (r: Result<
        ApiClient,
        String,
    >)
        ensures
            match r {
                Ok(c) => api_key is Some && c.api_key@ == api_key->0@ && c.model@ == (
                match model_env {
                    Some(m) => m@,
                    None => sp_default_model(),
                }),
                Err(e) => api_key is None && e@ == "ANTHROPIC_API_KEY not set"@,
            },
    {
        match api_key {
            None => Err("ANTHROPIC_API_KEY not set".to_owned()),
            Some(key) => {
                let model = match model_env {
                    Some(m) => m,
                    None => "sonnet-4-20250514".to_owned(),
                };
                Ok(ApiClient { api_key: key, model })
            },
        }
    }

    /// Replaces the model identifier.
    pub fn set_model(&mut self, model: String)
        ensures
            final(self).model@ == model@,
            final(self).api_key@ == old(self).api_key@,
    {
        self.model = model;
    }

    /// The configured model identifier.
    pub fn get_model(&self) -> (r: &str)
        ensures
            r@ == self.model@,
    {
        self.model.as_str()
    }

    /// Frames the request body for one turn (see `sp_request_body`): the
    /// override, when given, names the model in place of the configured
    /// one.
    pub fn build_request_body(
        &self,
        messages: &[Message],
        system_prompt: Option<&str>,
        stream: bool,
        model_override: Option<&str>,
    ) -> (r: String)
        ensures
            r@ == sp_request_body(
                match model_override {
                    Some(m) => m@,
                    None => self.model@,
                },
                match system_prompt {
                    Some(s) => Some(s@),
                    None => None,
                },
                msgs_view(messages@),
                stream,
            ),
    {
        let mut out = String::new();
        out.append("{\"model\":\"");
        proof {
            assert(out@ =~= "{\"model\":\""@);
        }
        match model_override {
            Some(m) => {
                escape_from(m, 0, &mut out);
                proof {
                    assert(m@.skip(0) =~= m@);
                }
            },
            None => {
                escape_from(self.model.as_str(), 0, &mut out);
                proof {
                    assert(self.model@.skip(0) =~= self.model@);
                }
            },
        }
        out.append("\",\"max_tokens\":4096");
        match system_prompt {
            Some(s) => {
                out.append(",\"system\":\"");
                escape_from(s, 0, &mut out);
                proof {
                    assert(s@.skip(0) =~= s@);
                }
                out.append("\"");
            },
            None => {},
        }
        out.append(",\"messages\":[");
        messages_from(messages, 0, &mut out);
        out.append("]");
        if stream {
            out.append(",\"stream\":true");
        }
        out.append("}");
        proof {
            assert(out@ =~= sp_request_body(
                match model_override {
                    Some(m) => m@,
                    None => self.model@,
                },
                match system_prompt {
                    Some(s) => Some(s@),
                    None => None,
                },
                msgs_view(messages@),
                stream,
            ));
        }
        out
    }
}

} // verus!
