//! What is given on the command line and in the environment.

use crate::net::{is_digit, numeral_value};
use crate::proxy::rule::{is_rule_text, Rule};
use crate::text::{char_at, split_once};
use vstd::prelude::*;

verus! {

/// One or more decimal digits.
pub open spec fn all_digits(s: Seq<char>) -> bool {
    s.len() > 0 && forall|i: int| 0 <= i < s.len() ==> is_digit(#[trigger] s[i])
}

/// The text denotes the number: digits, with a sign before them or not.
pub open spec fn is_i32_text(text: Seq<char>, n: i32) -> bool {
    ||| all_digits(text) && n == numeral_value(text)
    ||| text.len() > 0 && text[0] == '+' && all_digits(text.skip(1)) && n == numeral_value(
        text.skip(1),
    )
    ||| text.len() > 0 && text[0] == '-' && all_digits(text.skip(1)) && n == -numeral_value(
        text.skip(1),
    )
}

/// What is said of a text that denotes no number of 32 bits.
pub uninterp spec fn i32_error(text: Seq<char>) -> Seq<char>;

/// `<i32 as FromStr>::from_str`: accepts an optional sign followed by digits, if the number fits.
/// What it says of any other text depends on the text alone.
#[verifier::external_body]
fn parse_i32(text: &str) -> (r: Result<i32, String>)
    ensures
        match r {
            Ok(n) => is_i32_text(text@, n),
            Err(e) => e@ == i32_error(text@) && forall|n: i32| !#[trigger] is_i32_text(text@, n),
        },
{
    text.parse::<i32>().map_err(|e| e.to_string())
}

/// What becomes of a number that was given as a descriptor, or of the complaint about it.
pub open spec fn fd_outcome(parsed: Result<i32, Seq<char>>) -> Result<i32, Seq<char>> {
    match parsed {
        Err(e) => Err("invalid file descriptor: "@ + e),
        Ok(n) => if n < 0 {
            Err("file descriptor must be non-negative"@)
        } else {
            Ok(n)
        },
    }
}

pub open spec fn number_view(r: Result<i32, String>) -> Result<i32, Seq<char>> {
    match r {
        Ok(n) => Ok(n),
        Err(e) => Err(e@),
    }
}

/// Checks a number that was given as a descriptor.
pub fn check_vm_fd(parsed: Result<i32, String>) -> (r: Result<i32, String>)
    ensures
        number_view(r) == fd_outcome(number_view(parsed)),
{
    match parsed {
        Err(e) => {
            let mut text = String::from_str("invalid file descriptor: ");
            text.append(e.as_str());
            Err(text)
        },
        Ok(n) => if n < 0 {
            Err(String::from_str("file descriptor must be non-negative"))
        } else {
            Ok(n)
        },
    }
}

/// Reads the number of a descriptor.
pub fn parse_vm_fd(value: &str) -> (r: Result<i32, String>)
    ensures
        match r {
            Ok(n) => n >= 0 && is_i32_text(value@, n),
            Err(e) => {
                ||| e@ == "file descriptor must be non-negative"@ && exists|n: i32|
                    n < 0 && #[trigger] is_i32_text(value@, n)
                ||| e@ == "invalid file descriptor: "@ + i32_error(value@) && forall|n: i32|
                    !#[trigger] is_i32_text(value@, n)
            },
        },
{
    let parsed = parse_i32(value);
    proof {
        if let Ok(n) = parsed {
            assert(is_i32_text(value@, n));
        }
    }
    check_vm_fd(parsed)
}

/// Reads a rule of a kind that may be given on the command line.
pub fn parse_supported_rule(value: &str) -> (r: Result<Rule, String>)
    ensures
        match r {
            Ok(rule) => is_rule_text(value@, rule) && rule is Stateless && rule.wf(),
            Err(e) => {
                ||| e@ == "stateful rules are not supported yet"@ && exists|rule: Rule|
                    rule is Stateful && #[trigger] is_rule_text(value@, rule)
                ||| e@ == "invalid IP address syntax"@ && forall|rule: Rule|
                    !#[trigger] is_rule_text(value@, rule)
            },
        },
{
    match Rule::parse(value) {
        Err(e) => Err(e),
        Ok(rule) => match rule {
            Rule::Stateless(_) => Ok(rule),
            Rule::Stateful { .. } => {
                assert(rule is Stateful && is_rule_text(value@, rule));
                Err(String::from_str("stateful rules are not supported yet"))
            },
        },
    }
}

/// How the program goes on after its start.
#[derive(Clone, Copy, Debug, PartialEq, Eq, Structural)]
pub enum Startup {
    /// It was only asked whether it can be started.
    Exit,
    Run,
    /// It starts itself again with more rights.
    Escalate,
    /// It lacks the rights, and cannot get them.
    Refuse,
}

/// Decides how the program goes on. `sudo_works` matters only without the rights of root.
pub fn startup(probing: bool, is_root: bool, sudo_works: bool, escalated: bool) -> (r: Startup)
    ensures
        r == if probing {
            Startup::Exit
        } else if is_root {
            Startup::Run
        } else if sudo_works && !escalated {
            Startup::Escalate
        } else {
            Startup::Refuse
        },
{
    if probing {
        Startup::Exit
    } else if is_root {
        Startup::Run
    } else if sudo_works && !escalated {
        Startup::Escalate
    } else {
        Startup::Refuse
    }
}

/// The name and the value of a tag, if the text has an equals sign between them.
pub open spec fn tag_of(text: Seq<char>) -> Seq<(Seq<char>, Seq<char>)> {
    let at = char_at(text, '=', 0);
    if at < text.len() {
        seq![(text.take(at), text.skip(at + 1))]
    } else {
        Seq::empty()
    }
}

/// The tags in a list that is separated by commas. What has no equals sign is no tag.
pub open spec fn tags_of(text: Seq<char>) -> Seq<(Seq<char>, Seq<char>)>
    decreases text.len(),
{
    let at = char_at(text, ',', 0);
    if 0 <= at < text.len() {
        tag_of(text.take(at)) + tags_of(text.skip(at + 1))
    } else {
        tag_of(text)
    }
}

pub open spec fn pairs_view(tags: Seq<(String, String)>) -> Seq<(Seq<char>, Seq<char>)> {
    tags.map_values(|t: (String, String)| (t.0@, t.1@))
}

fn push_tag(tags: &mut Vec<(String, String)>, text: &str)
    ensures
        pairs_view(final(tags)@) == pairs_view(old(tags)@) + tag_of(text@),
{
    if let Some((name, value)) = split_once(text, '=') {
        tags.push((name.to_owned(), value.to_owned()));
    }
    assert(pairs_view(tags@) =~= pairs_view(old(tags)@) + tag_of(text@));
}

/// Reads a list of tags.
pub fn parse_tags(text: &str) -> (r: Vec<(String, String)>)
    ensures
        pairs_view(r@) == tags_of(text@),
{
    let mut tags: Vec<(String, String)> = Vec::new();
    let mut rest = text;
    assert(pairs_view(tags@) + tags_of(text@) =~= tags_of(text@));
    loop
        invariant
            pairs_view(tags@) + tags_of(rest@) == tags_of(text@),
        decreases rest@.len(),
    {
        match split_once(rest, ',') {
            Some((tag, tail)) => {
                proof {
                    lemma_char_at_nonneg(rest@, ',', 0);
                    assert(pairs_view(tags@) + (tag_of(tag@) + tags_of(tail@)) =~= (pairs_view(
                        tags@,
                    ) + tag_of(tag@)) + tags_of(tail@));
                }
                push_tag(&mut tags, tag);
                rest = tail;
            },
            None => {
                push_tag(&mut tags, rest);
                return tags;
            },
        }
    }
}

proof fn lemma_char_at_nonneg(text: Seq<char>, c: char, from: int)
    requires
        from >= 0,
    ensures
        char_at(text, c, from) >= 0,
        char_at(text, c, from) <= text.len(),
    decreases text.len() - from,
{
    if from < text.len() && text[from] != c {
        lemma_char_at_nonneg(text, c, from + 1);
    }
}

} // verus!
