use vstd::prelude::*;
use vstd::string::{StrSliceExecFns, StringExecFns};
use crate::error::E2EError;
use crate::model::{GreetingCmd, GreetingTemplate, TestTask};
use crate::stamp::{clock_stamp, new_external_reference, now_utc, uuid_v7_text};

verus! {

/// The position of the first line feed of `s`, or its length if it has none.
pub open spec fn newline_index(s: Seq<char>) -> nat
    decreases s.len(),
{
    if s.len() == 0 {
        0
    } else if s[0] == '\n' {
        0
    } else {
        1 + newline_index(s.drop_first())
    }
}

/// A line without the carriage return that ended it, if one did.
pub open spec fn strip_cr(line: Seq<char>) -> Seq<char> {
    if line.len() > 0 && line.last() == '\r' {
        line.drop_last()
    } else {
        line
    }
}

/// The lines of a text: split at each line feed, each line without a carriage
/// return just before its line feed, and no empty line after a final line feed.
pub open spec fn lines_of(s: Seq<char>) -> Seq<Seq<char>>
    decreases s.len(),
{
    if s.len() == 0 {
        Seq::empty()
    } else if newline_index(s) >= s.len() {
        seq![s]
    } else {
        seq![strip_cr(s.take(newline_index(s) as int))] + lines_of(
            s.skip(newline_index(s) as int + 1),
        )
    }
}

/// A text without its leading and trailing whitespace, as `str::trim` cuts it.
pub uninterp spec fn trim_of(s: Seq<char>) -> Seq<char>;

/// Relies on `str::lines`, which splits at `\n` and at `\r\n`, keeps no line
/// terminator, and yields no empty line after a final line ending; each line is
/// copied into a `String`.
#[verifier::external_body]
fn split_lines(s: &str) -> (r: Vec<String>)
    ensures
        r@.map_values(|l: String| l@) == lines_of(s@),
{
    let mut v = Vec::new();
    for l in s.lines() {
        v.push(l.to_string());
    }
    v
}

/// Relies on `str::trim`: the text without leading and trailing whitespace.
#[verifier::external_body]
fn trim_str(s: &str) -> (r: &str)
    ensures
        r@ == trim_of(s@),
{
    s.trim()
}

/// A line that holds nothing but an opening brace, up to whitespace.
pub open spec fn opens_object(line: Seq<char>) -> bool {
    trim_of(line) == seq!['{']
}

/// A line that holds nothing but a closing brace, up to whitespace.
pub open spec fn closes_object(line: Seq<char>) -> bool {
    trim_of(line) == seq!['}']
}

/// Whether the lines read so far leave an object open.
pub open spec fn inside_object(lines: Seq<Seq<char>>) -> bool
    decreases lines.len(),
{
    if lines.len() == 0 {
        false
    } else if opens_object(lines.last()) {
        true
    } else if closes_object(lines.last()) {
        false
    } else {
        inside_object(lines.drop_last())
    }
}

/// The lines that make up the objects of a text, joined without separators:
/// every brace line, and every other line that stands inside an object.
pub open spec fn json_part(lines: Seq<Seq<char>>) -> Seq<char>
    decreases lines.len(),
{
    if lines.len() == 0 {
        Seq::empty()
    } else {
        let before = json_part(lines.drop_last());
        if opens_object(lines.last()) || closes_object(lines.last()) || inside_object(
            lines.drop_last(),
        ) {
            before + lines.last()
        } else {
            before
        }
    }
}

/// Whether a greeting's parts have the lengths that the receiver accepts.
pub open spec fn template_valid(t: GreetingTemplate) -> bool {
    &&& 1 <= t.from@.len() <= 20
    &&& 1 <= t.heading@.len() <= 50
    &&& 1 <= t.message@.len() <= 50
}

/// Whether a string is exactly the one character `c`.
fn is_single_char(s: &str, c: char) -> (r: bool)
    ensures
        r == (s@ == seq![c]),
{
    if s.unicode_len() == 1 {
        let d = s.get_char(0);
        proof {
            if d == c {
                assert(s@ =~= seq![c]);
            }
        }
        d == c
    } else {
        false
    }
}

/// Keeps the lines that make up the objects of a reply: from each line that is
/// an opening brace through the next line that is a closing brace. The kept
/// lines are joined without separators.
pub fn select_json_lines(lines: &Vec<String>) -> (r: String)
    ensures
        r@ == json_part(lines@.map_values(|l: String| l@)),
{
    let ghost views = lines@.map_values(|l: String| l@);
    let mut r = String::new();
    let mut json = false;
    let mut i: usize = 0;
    proof {
        assert(views.take(0) =~= Seq::<Seq<char>>::empty());
    }
    while i < lines.len()
        invariant
            i <= lines@.len(),
            views == lines@.map_values(|l: String| l@),
            r@ == json_part(views.take(i as int)),
            json == inside_object(views.take(i as int)),
        decreases lines@.len() - i,
    {
        proof {
            assert(views.take(i + 1).drop_last() =~= views.take(i as int));
            assert(views.take(i + 1).last() == lines@[i as int]@);
        }
        let line = lines[i].as_str();
        let t = trim_str(line);
        let opens = is_single_char(t, '{');
        let closes = is_single_char(t, '}');
        if opens {
            json = true;
        } else if closes {
            json = false;
        }
        if opens || closes || json {
            r.append(line);
        }
        i = i + 1;
    }
    proof {
        assert(views.take(lines@.len() as int) =~= views);
    }
    r
}

/// Cuts the object out of a language model's reply: the reply's lines from an
/// opening brace through the closing one, joined without line breaks.
pub fn parse_message(generated_message: String) -> (r: String)
    ensures
        r@ == json_part(lines_of(generated_message@)),
{
    let lines = split_lines(generated_message.as_str());
    select_json_lines(&lines)
}

impl GreetingTemplate {
    /// Checks the lengths, in characters, that the receiver accepts: a sender of
    /// one to twenty, a heading and a message of one to fifty.
    pub fn validate(&self) -> (r: Result<(), E2EError>)
        ensures
            r is Ok <==> template_valid(*self),
            r matches Err(e) ==> e is ValidationError,
    {
        let from = self.from.as_str().unicode_len();
        let heading = self.heading.as_str().unicode_len();
        let message = self.message.as_str().unicode_len();
        if from < 1 || from > 20 {
            Err(E2EError::ValidationError(String::from_str("from must have 1 to 20 characters")))
        } else if heading < 1 || heading > 50 {
            Err(E2EError::ValidationError(String::from_str("heading must have 1 to 50 characters")))
        } else if message < 1 || message > 50 {
            Err(E2EError::ValidationError(String::from_str("message must have 1 to 50 characters")))
        } else {
            Ok(())
        }
    }
}

impl GreetingCmd {
    /// A command that carries the template's content, a fresh external
    /// reference and the current time.
    pub fn from_template(template: &GreetingTemplate) -> (r: GreetingCmd)
        ensures
            r.to == template.to,
            r.from == template.from,
            r.heading == template.heading,
            r.message == template.message,
            uuid_v7_text(r.external_reference@),
            clock_stamp(r.created),
    {
        GreetingCmd {
            external_reference: new_external_reference(),
            to: template.to.clone(),
            from: template.from.clone(),
            heading: template.heading.clone(),
            message: template.message.clone(),
            created: now_utc(),
        }
    }
}

/// The payloads that were generated, in order, without the failures.
pub open spec fn generated(payloads: Seq<Result<GreetingTemplate, E2EError>>) -> Seq<
    GreetingTemplate,
>
    decreases payloads.len(),
{
    if payloads.len() == 0 {
        Seq::empty()
    } else {
        match payloads.last() {
            Ok(t) => generated(payloads.drop_last()).push(t),
            Err(_) => generated(payloads.drop_last()),
        }
    }
}

/// Makes a task of each payload that was generated, in order, and drops each
/// failure. Each task is stamped with a fresh external reference and the
/// current time.
pub fn tasks_from_payloads(payloads: &Vec<Result<GreetingTemplate, E2EError>>) -> (r: Vec<TestTask>)
    ensures
        r@.len() == generated(payloads@).len(),
        forall|k: int|
            0 <= k < r@.len() ==> {
                let t = generated(payloads@)[k];
                &&& (#[trigger] r@[k]).message.to == t.to
                &&& r@[k].message.from == t.from
                &&& r@[k].message.heading == t.heading
                &&& r@[k].message.message == t.message
                &&& r@[k].external_reference == r@[k].message.external_reference
                &&& uuid_v7_text(r@[k].external_reference@)
                &&& clock_stamp(r@[k].message.created)
                &&& r@[k].message_id is None
                &&& r@[k].greeting_logg_entry is None
            },
{
    let mut tasks: Vec<TestTask> = Vec::new();
    let mut i: usize = 0;
    while i < payloads.len()
        invariant
            i <= payloads@.len(),
            tasks@.len() == generated(payloads@.take(i as int)).len(),
            forall|k: int|
                0 <= k < tasks@.len() ==> {
                    let t = generated(payloads@.take(i as int))[k];
                    &&& (#[trigger] tasks@[k]).message.to == t.to
                    &&& tasks@[k].message.from == t.from
                    &&& tasks@[k].message.heading == t.heading
                    &&& tasks@[k].message.message == t.message
                    &&& tasks@[k].external_reference == tasks@[k].message.external_reference
                    &&& uuid_v7_text(tasks@[k].external_reference@)
                    &&& clock_stamp(tasks@[k].message.created)
                    &&& tasks@[k].message_id is None
                    &&& tasks@[k].greeting_logg_entry is None
                },
        decreases payloads@.len() - i,
    {
        proof {
            assert(payloads@.take(i + 1).drop_last() =~= payloads@.take(i as int));
            assert(payloads@.take(i + 1).last() == payloads@[i as int]);
        }
        match &payloads[i] {
            Ok(t) => {
                tasks.push(TestTask::created(GreetingCmd::from_template(t)));
            },
            Err(_) => {},
        }
        i = i + 1;
    }
    proof {
        assert(payloads@.take(payloads@.len() as int) =~= payloads@);
    }
    tasks
}

/// The built-in generator: the same greeting every time.
#[derive(Debug, Clone, Copy)]
pub struct LocalMessageGenerator;

impl LocalMessageGenerator {
    pub fn generate_message(&self) -> (r: Result<GreetingTemplate, E2EError>)
        ensures
            r matches Ok(t) && t.to@ == "Greeting recipient"@ && t.from@ == "Greeting sender"@
                && t.heading@ == "Greeting heading"@ && t.message@ == "Greeting main message"@,
    {
        Ok(
            GreetingTemplate {
                to: String::from_str("Greeting recipient"),
                from: String::from_str("Greeting sender"),
                heading: String::from_str("Greeting heading"),
                message: String::from_str("Greeting main message"),
            },
        )
    }
}

/// The generator that asks a local language model for each greeting; its
/// reply is cut down with `parse_message` and checked with
/// `GreetingTemplate::validate`.
#[derive(Debug, Clone, Copy)]
pub struct OllamaMessageGenerator;

/// A fixed greeting with a fresh version-7 external reference and the current
/// time.
pub fn generate_random_message() -> (r: GreetingCmd)
    ensures
        r.to@ == "arne"@,
        r.from@ == "arne"@,
        r.heading@ == "chrismas carg"@,
        r.message@ == "Happy christmas"@,
        uuid_v7_text(r.external_reference@),
        clock_stamp(r.created),
{
    GreetingCmd {
        to: String::from_str("arne"),
        from: String::from_str("arne"),
        heading: String::from_str("chrismas carg"),
        message: String::from_str("Happy christmas"),
        external_reference: new_external_reference(),
        created: now_utc(),
    }
}

} // verus!
