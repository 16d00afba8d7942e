//! The chat session: its messages, the commands typed at its prompt, and
//! the assembly of each streamed reply.

use vstd::prelude::*;
use vstd::string::*;
use crate::text::{chars_of, find_chars, find_from};

verus! {

#[verifier::external_type_specification]
#[verifier::external_body]
pub struct ExSplitError(shvar::Error);

/// The words that quoting-aware splitting makes of a line; `None` where the
/// line cannot be split (an open quote, say).
pub uninterp spec fn shell_words(line: Seq<char>) -> Option<Seq<Seq<char>>>;

/// The views of a list of strings.
pub open spec fn string_views(v: Seq<String>) -> Seq<Seq<char>> {
    v.map_values(|s: String| s@)
}

/// Relies on shvar::split to break a line into shell words, honouring quotes;
/// the words depend on the line alone.
#[verifier::external_body]
fn split_words(line: &str) -> (r: Result<Vec<String>, shvar::Error>)
    ensures
        r matches Ok(w) ==> shell_words(line@) == Some(string_views(w@)),
        r is Err ==> shell_words(line@) is None,
{
    shvar::split(line)
}

/// Who wrote a message.
#[derive(Clone, Copy, Debug, PartialEq, Eq, Structural)]
pub enum Role {
    System,
    User,
    Assistant,
}

/// One turn of the conversation.
#[derive(Clone, Debug, PartialEq, Eq)]
pub struct Message {
    pub role: Role,
    pub content: String,
}

/// Where to find the model, which model to use, and where the scenario is saved.
#[derive(Clone, Debug, PartialEq, Eq)]
pub struct ChatOptions {
    pub ollama_host: Option<String>,
    pub model: String,
    pub save: String,
}

/// The model used unless another is chosen.
pub open spec fn default_model() -> Seq<char> {
    "mistral-small:24b-3.1-instruct-2503-fp16"@
}

/// The scenario file used unless another is chosen.
pub open spec fn default_save() -> Seq<char> {
    ".ipomrawh.save"@
}

impl Default for ChatOptions {
    fn default() -> (r: Self)
        ensures
            r.ollama_host is None,
            r.model@ == default_model(),
            r.save@ == default_save(),
    {
        ChatOptions {
            ollama_host: None,
            model: String::from_str("mistral-small:24b-3.1-instruct-2503-fp16"),
            save: String::from_str(".ipomrawh.save"),
        }
    }
}

/// What the text payloads of a reply's fragments amount to: their
/// concatenation in arrival order, fragments without text adding nothing.
pub open spec fn assembled(pieces: Seq<Option<Seq<char>>>) -> Seq<char>
    decreases pieces.len(),
{
    if pieces.len() == 0 {
        seq![]
    } else {
        assembled(pieces.drop_last()) + match pieces.last() {
            Some(t) => t,
            None => seq![],
        }
    }
}

/// Assembling two runs of fragments one after the other gives the two
/// assembled texts one after the other.
pub proof fn lemma_assembled_concat(a: Seq<Option<Seq<char>>>, b: Seq<Option<Seq<char>>>)
    ensures
        assembled(a + b) == assembled(a) + assembled(b),
    decreases b.len(),
{
    if b.len() == 0 {
        assert(a + b =~= a);
        assert(assembled(a) + assembled(b) =~= assembled(a));
    } else {
        lemma_assembled_concat(a, b.drop_last());
        assert((a + b).drop_last() =~= a + b.drop_last());
        let tail = match b.last() {
            Some(t) => t,
            None => seq![],
        };
        assert(assembled(a) + assembled(b.drop_last()) + tail =~= assembled(a) + (assembled(
            b.drop_last(),
        ) + tail));
    }
}

/// How a reply is cut into fragments does not matter: splitting one
/// fragment's text in two, at any point, assembles to the same reply.
pub proof fn lemma_split_fragment(
    before: Seq<Option<Seq<char>>>,
    x: Seq<char>,
    y: Seq<char>,
    after: Seq<Option<Seq<char>>>,
)
    ensures
        assembled(before + seq![Some(x + y)] + after) == assembled(
            before + seq![Some(x), Some(y)] + after,
        ),
{
    let whole: Seq<Option<Seq<char>>> = seq![Some(x + y)];
    let parts: Seq<Option<Seq<char>>> = seq![Some(x), Some(y)];
    lemma_assembled_concat(before + whole, after);
    lemma_assembled_concat(before + parts, after);
    lemma_assembled_concat(before, whole);
    lemma_assembled_concat(before, parts);
    assert(whole.drop_last() =~= seq![]);
    assert(parts.drop_last().drop_last() =~= seq![]);
    assert(assembled(whole.drop_last()) =~= seq![]);
    assert(whole.last() == Some(x + y));
    assert(assembled(whole) =~= x + y);
    assert(assembled(parts.drop_last().drop_last()) =~= seq![]);
    assert(parts.drop_last().last() == Some(x));
    assert(assembled(parts.drop_last()) =~= x);
    assert(parts.last() == Some(y));
    assert(assembled(parts) =~= x + y);
}

/// The views of a list of fragment payloads.
pub open spec fn payloads(pieces: Seq<Option<String>>) -> Seq<Option<Seq<char>>> {
    pieces.map_values(
        |p: Option<String>|
            match p {
                Some(s) => Some(s@),
                None => None,
            },
    )
}

/// The line that opens a tagged block in a reply.
pub open spec fn block_header() -> Seq<char> {
    "```roleplay\n"@
}

/// The text that closes a tagged block.
pub open spec fn block_footer() -> Seq<char> {
    "\n```"@
}

/// The tagged block of a reply: what lies between the first header and the
/// first footer after it. `None` where either is missing.
pub open spec fn tagged_block(content: Seq<char>) -> Option<Seq<char>> {
    match find_from(content, block_header(), 0) {
        None => None,
        Some(i) => {
            let start = i + block_header().len();
            match find_from(content, block_footer(), start) {
                None => None,
                Some(j) => Some(content.subrange(start, j)),
            }
        },
    }
}

/// The tagged block of `content`, if it has a complete one.
pub fn extract_tagged_block(content: &str) -> (r: Option<String>)
    ensures
        r matches Some(b) ==> tagged_block(content@) == Some(b@),
        r is None ==> tagged_block(content@) is None,
{
    let text = chars_of(content);
    let header = chars_of("```roleplay\n");
    let footer = chars_of("\n```");
    let _ = text.len();
    match find_chars(&text, &header, 0) {
        None => None,
        Some(i) => {
            assert(i + header@.len() <= text@.len());
            let start = i + header.len();
            match find_chars(&text, &footer, start) {
                None => None,
                Some(j) => {
                    assert(start <= j <= text@.len());
                    Some(String::from_str(content.substring_char(start, j)))
                },
            }
        },
    }
}

/// What a line typed at the prompt asks for, by its words.
pub enum Request {
    Blank,
    Exit,
    Help,
    SetModel,
    MissingModel,
    ExtraArguments,
    Edit,
    Reply,
    Unknown,
    Message,
}

/// Whether `w` is one of the words that end the session.
pub open spec fn is_exit_word(w: Seq<char>) -> bool {
    w == ":exit"@ || w == ":quit"@ || w == ":wq"@ || w == ":q"@
}

/// The request that the words of a line make.
pub open spec fn classify(words: Seq<Seq<char>>) -> Request {
    if words.len() == 0 {
        Request::Blank
    } else if is_exit_word(words[0]) {
        Request::Exit
    } else if words[0] == ":help"@ {
        Request::Help
    } else if words[0] == ":model"@ {
        if words.len() < 2 {
            Request::MissingModel
        } else if words.len() > 2 {
            Request::ExtraArguments
        } else {
            Request::SetModel
        }
    } else if words[0] == ":edit"@ {
        Request::Edit
    } else if words[0] == ":reply"@ {
        Request::Reply
    } else if words[0].len() > 0 && words[0][0] == ':' {
        Request::Unknown
    } else {
        Request::Message
    }
}

/// The text the editor starts from for `:edit`.
pub open spec fn edit_seed() -> Seq<char> {
    "Replace this text with your prompt."@
}

/// What the session does after a line was typed.
#[derive(Debug)]
pub enum LineOutcome {
    /// The line could not be split into words.
    Unsplittable(shvar::Error),
    /// The line holds no words.
    Blank,
    /// The session ends.
    Exit,
    /// The help text is shown.
    Help,
    /// The model was changed.
    ModelChanged,
    /// `:model` came without a model name.
    MissingModel,
    /// `:model` came with more than a model name.
    ExtraArguments,
    /// The editor is to be opened on this text; what it returns is submitted.
    Edit(String),
    /// The line starts with a command word that is not known.
    Unknown(String),
    /// The line was appended as a user message; a round trip is due.
    Submitted,
}

/// Whether two strings hold the same characters.
fn same_text(a: &str, b: &str) -> (r: bool)
    ensures
        r == (a@ == b@),
{
    let la = a.unicode_len();
    let lb = b.unicode_len();
    if la != lb {
        return false;
    }
    let mut i: usize = 0;
    while i < la
        invariant
            la == a@.len(),
            lb == b@.len(),
            la == lb,
            i <= la,
            forall|k: int| 0 <= k < i ==> a@[k] == b@[k],
        decreases la - i,
    {
        if a.get_char(i) != b.get_char(i) {
            return false;
        }
        i += 1;
    }
    assert(a@ =~= b@);
    true
}

/// Each character of `s`, with every newline followed by the quote marker.
pub open spec fn marked(s: Seq<char>) -> Seq<char>
    decreases s.len(),
{
    if s.len() == 0 {
        seq![]
    } else {
        marked(s.drop_last()) + if s.last() == '\n' {
            "\n... "@
        } else {
            seq![s.last()]
        }
    }
}

/// Text as echoed after editing: each of its lines behind the quote marker
/// `... `, one final newline dropped; nothing for empty text.
pub open spec fn quoted(text: Seq<char>) -> Seq<char> {
    if text.len() == 0 {
        seq![]
    } else {
        let body = if text.last() == '\n' {
            text.drop_last()
        } else {
            text
        };
        "... "@ + marked(body)
    }
}

/// `text` quoted for echoing, as `quoted` says.
pub fn quote_lines(text: &str) -> (r: String)
    ensures
        r@ == quoted(text@),
{
    let n = text.unicode_len();
    if n == 0 {
        return String::new();
    }
    let end = if text.get_char(n - 1) == '\n' {
        n - 1
    } else {
        n
    };
    let ghost body = text@.subrange(0, end as int);
    proof {
        if text@.last() == '\n' {
            assert(body =~= text@.drop_last());
        } else {
            assert(body =~= text@);
        }
    }
    let mut out = String::from_str("... ");
    let mut i: usize = 0;
    while i < end
        invariant
            end <= n,
            n == text@.len(),
            body == text@.subrange(0, end as int),
            i <= end,
            out@ == "... "@ + marked(body.subrange(0, i as int)),
        decreases end - i,
    {
        let c = text.get_char(i);
        assert(body.subrange(0, i + 1).drop_last() =~= body.subrange(0, i as int));
        assert(body.subrange(0, i + 1).last() == c);
        if c == '\n' {
            out.append("\n... ");
        } else {
            let one = text.substring_char(i, i + 1);
            assert(one@ =~= seq![c]);
            out.append(one);
        }
        i += 1;
    }
    assert(body.subrange(0, end as int) =~= body);
    out
}

/// The content of the last message; empty where there is none.
pub open spec fn last_content(messages: Seq<Message>) -> Seq<char> {
    if messages.len() == 0 {
        seq![]
    } else {
        messages.last().content@
    }
}

/// What acting on the words `w` of `line` does: the outcome `r`, and the
/// chat going from `before` to `after`.
pub open spec fn dispatched(
    before: Chat,
    after: Chat,
    line: String,
    w: Seq<Seq<char>>,
    r: LineOutcome,
) -> bool {
    match classify(w) {
        Request::Blank => r is Blank && after == before,
        Request::Exit => r is Exit && after == before,
        Request::Help => r is Help && after == before,
        Request::MissingModel => r is MissingModel && after == before,
        Request::ExtraArguments => r is ExtraArguments && after == before,
        Request::SetModel => r is ModelChanged && after.messages == before.messages
            && after.options.model@ == w[1] && after.options.ollama_host
            == before.options.ollama_host && after.options.save == before.options.save,
        Request::Edit => (r matches LineOutcome::Edit(s) && s@ == edit_seed()) && after == before,
        Request::Reply => (r matches LineOutcome::Edit(s) && s@ == last_content(before.messages@))
            && after == before,
        Request::Unknown => (r matches LineOutcome::Unknown(s) && s@ == w[0]) && after == before,
        Request::Message => r is Submitted && after.options == before.options
            && after.messages@ == before.messages@.push(
            Message { role: Role::User, content: line },
        ),
    }
}

/// A conversation with the model, and the options it runs with.
#[derive(Clone, Debug)]
pub struct Chat {
    pub messages: Vec<Message>,
    pub options: ChatOptions,
}

impl Chat {
    /// A chat with no messages, or with `system` as its one system message.
    pub fn new(options: ChatOptions, system: Option<String>) -> (r: Self)
        ensures
            r.options == options,
            system is None ==> r.messages@.len() == 0,
            system matches Some(s) ==> r.messages@ == seq![Message { role: Role::System, content: s }],
    {
        match system {
            Some(s) => {
                let mut messages: Vec<Message> = Vec::new();
                messages.push(Message { role: Role::System, content: s });
                Chat { messages, options }
            },
            None => Chat { messages: Vec::new(), options },
        }
    }

    /// Act on the words of a line typed at the prompt: change the session,
    /// ask for the editor, or append the line as a user message.
    pub fn dispatch(&mut self, line: String, words: Vec<String>) -> (r: LineOutcome)
        ensures
            dispatched(*old(self), *final(self), line, string_views(words@), r),
    {
        let ghost w = string_views(words@);
        if words.len() == 0 {
            return LineOutcome::Blank;
        }
        assert(w[0] == words@[0]@);
        let first = words[0].as_str();
        if same_text(first, ":exit") || same_text(first, ":quit") || same_text(first, ":wq")
            || same_text(first, ":q") {
            LineOutcome::Exit
        } else if same_text(first, ":help") {
            LineOutcome::Help
        } else if same_text(first, ":model") {
            if words.len() < 2 {
                LineOutcome::MissingModel
            } else if words.len() > 2 {
                LineOutcome::ExtraArguments
            } else {
                assert(w[1] == words@[1]@);
                self.options.model = words[1].clone();
                LineOutcome::ModelChanged
            }
        } else if same_text(first, ":edit") {
            LineOutcome::Edit(String::from_str("Replace this text with your prompt."))
        } else if same_text(first, ":reply") {
            let n = self.messages.len();
            if n == 0 {
                LineOutcome::Edit(String::new())
            } else {
                LineOutcome::Edit(self.messages[n - 1].content.clone())
            }
        } else if first.unicode_len() > 0 && first.get_char(0) == ':' {
            LineOutcome::Unknown(words[0].clone())
        } else {
            self.messages.push(Message { role: Role::User, content: line });
            LineOutcome::Submitted
        }
    }

    /// Act on a line typed at the prompt: split it into shell words, then
    /// dispatch on them. A line that cannot be split changes nothing.
    pub fn handle_line(&mut self, line: String) -> (r: LineOutcome)
        ensures
            match shell_words(line@) {
                None => r is Unsplittable && *final(self) == *old(self),
                Some(w) => dispatched(*old(self), *final(self), line, w, r),
            },
    {
        match split_words(line.as_str()) {
            Err(e) => LineOutcome::Unsplittable(e),
            Ok(words) => self.dispatch(line, words),
        }
    }

    /// Append `text`, as written in the editor, as a user message.
    pub fn submit(&mut self, text: String)
        ensures
            final(self).options == old(self).options,
            final(self).messages@ == old(self).messages@.push(
                Message { role: Role::User, content: text },
            ),
    {
        self.messages.push(Message { role: Role::User, content: text });
    }

    /// The assistant's message made of a reply's fragment payloads, joined in
    /// arrival order.
    pub fn assemble_assistant_response(pieces: Vec<Option<String>>) -> (r: Message)
        ensures
            r.role == Role::Assistant,
            r.content@ == assembled(payloads(pieces@)),
    {
        let mut content = String::new();
        let mut i: usize = 0;
        while i < pieces.len()
            invariant
                i <= pieces@.len(),
                content@ == assembled(payloads(pieces@).subrange(0, i as int)),
            decreases pieces@.len() - i,
        {
            let ghost all = payloads(pieces@);
            assert(all.subrange(0, i + 1).drop_last() =~= all.subrange(0, i as int));
            match &pieces[i] {
                Some(t) => {
                    content.append(t.as_str());
                },
                None => {
                    assert(content@ =~= content@ + seq![]);
                },
            }
            i += 1;
        }
        assert(payloads(pieces@).subrange(0, pieces@.len() as int) =~= payloads(pieces@));
        Message { role: Role::Assistant, content }
    }

    /// Take a finished reply: append it as the assistant's message, and return
    /// its tagged block where it holds a complete one, which ends the session.
    pub fn finish_round_trip(&mut self, pieces: Vec<Option<String>>) -> (r: Option<String>)
        ensures
            final(self).options == old(self).options,
            final(self).messages@.len() == old(self).messages@.len() + 1,
            final(self).messages@.drop_last() == old(self).messages@,
            final(self).messages@.last().role == Role::Assistant,
            final(self).messages@.last().content@ == assembled(payloads(pieces@)),
            r matches Some(b) ==> tagged_block(assembled(payloads(pieces@))) == Some(b@),
            r is None ==> tagged_block(assembled(payloads(pieces@))) is None,
    {
        let message = Self::assemble_assistant_response(pieces);
        let block = extract_tagged_block(message.content.as_str());
        self.messages.push(message);
        assert(self.messages@.drop_last() =~= old(self).messages@);
        block
    }
}

} // verus!
