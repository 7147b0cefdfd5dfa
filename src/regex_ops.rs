//! Regular expressions, through the regex crate.
use vstd::prelude::*;

use crate::error::RuntimeError;
use crate::ids::Group;
use crate::ops::{args_ok, arg, text_of};
use crate::store::ValueStore;
use crate::text::str_eq;
use crate::value::{CodeArea, Value};

verus! {

#[verifier::external_type_specification]
#[verifier::external_body]
pub struct ExRegex(regex::Regex);

/// Whether the regex crate accepts the pattern.
pub uninterp spec fn regex_valid(pattern: Seq<char>) -> bool;

/// Whether the pattern matches somewhere in the text.
pub uninterp spec fn regex_is_match(pattern: Seq<char>, text: Seq<char>) -> bool;

/// The text with every match of the pattern replaced, `$` references in the
/// replacement expanded.
pub uninterp spec fn regex_replaced(pattern: Seq<char>, text: Seq<char>, replacement: Seq<char>) -> Seq<char>;

/// The byte offsets (start, end) of the successive non-overlapping matches.
pub uninterp spec fn regex_found(pattern: Seq<char>, text: Seq<char>) -> Seq<(usize, usize)>;

/// A compiled regular expression together with its pattern.
pub struct CompiledRegex {
    pattern: String,
    re: regex::Regex,
}

impl CompiledRegex {
    pub closed spec fn pattern(&self) -> Seq<char> {
        self.pattern@
    }
}

/// Relies on regex::Regex::new: compiles the pattern, or fails when its
/// syntax is invalid.
#[verifier::external_body]
fn compile_regex(pattern: &str) -> (r: Option<CompiledRegex>)
    ensures
        r is Some == regex_valid(pattern@),
        r is Some ==> r->Some_0.pattern() == pattern@,
{
    match regex::Regex::new(pattern) {
        Ok(re) => Some(CompiledRegex { pattern: pattern.to_string(), re }),
        Err(_) => None,
    }
}

/// Relies on regex::Regex::is_match: whether the pattern matches anywhere.
#[verifier::external_body]
fn is_match(r: &CompiledRegex, text: &str) -> (b: bool)
    ensures
        b == regex_is_match(r.pattern(), text@),
{
    r.re.is_match(text)
}

/// Relies on regex::Regex::replace_all: every match replaced.
#[verifier::external_body]
fn replace_all(r: &CompiledRegex, text: &str, replacement: &str) -> (out: String)
    ensures
        out@ == regex_replaced(r.pattern(), text@, replacement@),
{
    r.re.replace_all(text, replacement).to_string()
}

/// Relies on regex::Regex::find_iter: the offsets of the successive matches.
#[verifier::external_body]
fn find_all(r: &CompiledRegex, text: &str) -> (out: Vec<(usize, usize)>)
    ensures
        out@ == regex_found(r.pattern(), text@),
{
    r.re.find_iter(text).map(|m| (m.start(), m.end())).collect()
}

/// The slot `idx` holds an array of two slots that hold the match's start
/// and end.
pub open spec fn match_pair(s: &ValueStore, idx: usize, m: (usize, usize)) -> bool {
    let items = crate::ops::array_items(s.slots@[idx as int].value);
    &&& idx < s.slots@.len()
    &&& s.slots@[idx as int].value is Array
    &&& items.len() == 2
    &&& items[0] < s.slots@.len() && items[1] < s.slots@.len()
    &&& s.slots@[items[0] as int].value == Value::Number(m.0 as i64)
    &&& s.slots@[items[1] as int].value == Value::Number(m.1 as i64)
}

/// What `op_regex` gives.
pub open spec fn regex_outcome(s0: &ValueStore, s1: &ValueStore, args: Seq<usize>, r: Result<Value, RuntimeError>) -> bool {
    &&& s1.wf()
    &&& s1.extends(s0)
    &&& ({
                let pattern = text_of(arg(s0, args, 0));
                let text = text_of(arg(s0, args, 1));
                let mode = text_of(arg(s0, args, 2));
                let rep = arg(s0, args, 3);
                &&& !regex_valid(pattern) ==> (r is Err && r->Err_0 is BuiltinError)
                &&& regex_valid(pattern) && mode == "match"@ ==> r == Ok::<Value, RuntimeError>(Value::Bool(regex_is_match(pattern, text)))
                &&& regex_valid(pattern) && mode == "replace"@ && rep is Str ==> (r matches Ok(Value::Str(t)) && t@ == regex_replaced(pattern, text, text_of(rep)))
                &&& regex_valid(pattern) && mode == "replace"@ && !(rep is Str) ==> (r is Err && r->Err_0 is BuiltinError)
                &&& regex_valid(pattern) && mode == "findall"@ ==> (r matches Ok(Value::Array(v)) && v@.len() == regex_found(pattern, text).len()
                && (forall|j: int| 0 <= j < v@.len() ==> #[trigger] match_pair(s1, v@[j], regex_found(pattern, text)[j]))
                && (forall|j: int| 0 <= j < v@.len() ==> #[trigger] v@[j] < s1.slots@.len()))
                &&& regex_valid(pattern) && mode != "match"@ && mode != "replace"@ && mode != "findall"@ ==> (r is Err && r->Err_0 is BuiltinError)
            })
}

/// `regex(pattern, s, mode, replacement)`: for the mode `match` whether the
/// pattern matches in `s`, for `replace` the text with every match replaced,
/// for `findall` an array of `[start, end]` arrays of the matches.
pub fn op_regex(args: &Vec<usize>, info: CodeArea, s: &mut ValueStore, group: Group) -> (r: Result<Value, RuntimeError>)
    requires
        args_ok(old(s), args@, 4),
        arg(old(s), args@, 0) is Str,
        arg(old(s), args@, 1) is Str,
        arg(old(s), args@, 2) is Str,
    ensures
        regex_outcome(old(s), final(s), args@, r),
{
    let pattern = match s.get(args[0]) {
        Value::Str(t) => t.clone(),
        _ => String::new(),
    };
    let text = match s.get(args[1]) {
        Value::Str(t) => t.clone(),
        _ => String::new(),
    };
    let mode = match s.get(args[2]) {
        Value::Str(t) => t.clone(),
        _ => String::new(),
    };
    let re = match compile_regex(pattern.as_str()) {
        Some(re) => re,
        None => {
            return Err(RuntimeError::builtin("Failed to build regex (invalid syntax)", info));
        },
    };
    proof {
        reveal_strlit("match");
        reveal_strlit("replace");
        reveal_strlit("findall");
        assert("match"@ != "replace"@) by {
            assert("match"@.len() != "replace"@.len());
        }
        assert("match"@ != "findall"@) by {
            assert("match"@.len() != "findall"@.len());
        }
        assert("replace"@ != "findall"@) by {
            assert("replace"@[0] != "findall"@[0]);
        }
    }
    assert(pattern@ == text_of(arg(old(s), args@, 0)));
    assert(text@ == text_of(arg(old(s), args@, 1)));
    assert(mode@ == text_of(arg(old(s), args@, 2)));
    if str_eq(mode.as_str(), "match") {
        Ok(Value::Bool(is_match(&re, text.as_str())))
    } else if str_eq(mode.as_str(), "replace") {
        match s.get(args[3]) {
            Value::Str(rep) => Ok(Value::Str(replace_all(&re, text.as_str(), rep.as_str()))),
            _ => Err(RuntimeError::builtin("Invalid or missing replacer. Expected @string", info)),
        }
    } else if str_eq(mode.as_str(), "findall") {
        let found = find_all(&re, text.as_str());
        let mut output: Vec<usize> = Vec::new();
        let mut i: usize = 0;
        while i < found.len()
            invariant
                s.wf(),
                s.extends(old(s)),
                i <= found@.len(),
                output@.len() == i,
                forall|j: int| 0 <= j < output@.len() ==> #[trigger] output@[j] < s.slots@.len(),
                found@ == regex_found(text_of(arg(old(s), args@, 0)), text_of(arg(old(s), args@, 1))),
                forall|j: int| 0 <= j < output@.len() ==> #[trigger] match_pair(s, output@[j], found@[j]),
            decreases found.len() - i,
        {
            let ghost s0 = *s;
            let p1 = s.store(Value::Number(found[i].0 as i64), group, info, false);
            let p2 = s.store(Value::Number(found[i].1 as i64), group, info, false);
            let mut pair: Vec<usize> = Vec::new();
            pair.push(p1);
            pair.push(p2);
            let pa = s.store(Value::Array(pair), group, info, false);
            proof {
                assert forall|q: int| 0 <= q < old(s).slots@.len() implies #[trigger] s.slots@[q] == old(s).slots@[q] by {
                    assert(s0.slots@[q] == old(s).slots@[q]);
                }
                assert forall|q: int| 0 <= q < old(s).slots@.len() implies #[trigger] s.ranks@[q] == old(s).ranks@[q] by {
                    assert(s0.ranks@[q] == old(s).ranks@[q]);
                }
            }
            let ghost prev = output@;
            output.push(pa);
            assert forall|j: int| 0 <= j < output@.len() implies #[trigger] output@[j] < s.slots@.len() by {
                if j < prev.len() {
                    assert(output@[j] == prev[j]);
                }
            }
            proof {
                assert(s.slots@[pa as int].value == Value::Array(pair));
                assert(match_pair(s, pa, found@[i as int]));
                assert forall|j: int| 0 <= j < output@.len() implies #[trigger] match_pair(s, output@[j], found@[j]) by {
                    if j < prev.len() {
                        assert(output@[j] == prev[j]);
                        assert(match_pair(&s0, prev[j], found@[j]));
                        let items = crate::ops::array_items(s0.slots@[prev[j] as int].value);
                        assert(s.slots@[prev[j] as int] == s0.slots@[prev[j] as int]);
                        assert(s.slots@[items[0] as int] == s0.slots@[items[0] as int]);
                        assert(s.slots@[items[1] as int] == s0.slots@[items[1] as int]);
                    }
                }
            }
            i = i + 1;
        }
        Ok(Value::Array(output))
    } else {
        Err(RuntimeError::builtin("Invalid regex mode. Expected \"match\", \"replace\" or \"findall\"", info))
    }
}

} // verus!
