//! The built-ins whose work happens outside the compiler. The library
//! checks the call and builds a request; the host performs it and hands the
//! outcome back as plain values, which become values of the store here.
use vstd::prelude::*;

use crate::builtins::{Builtin, is_host, builtin_safe, param_specs};
use crate::context::Context;
use crate::dispatch::{args_meet, check_arguments};
use crate::error::RuntimeError;
use crate::globals::Globals;
use crate::ids::{Group, decimal};
use crate::ops::{arg, text_of};
use crate::store::{ValueStore, lookup, unique_keys};
use crate::text::{push_str, str_eq};
use crate::value::{CodeArea, Value};

verus! {

/// How `readfile` reads a file.
#[derive(Debug, Copy, Clone, PartialEq, Eq, Structural)]
pub enum FileFormat {
    Text,
    Bin,
    Json,
    Toml,
    Yaml,
}

#[derive(Debug, Copy, Clone, PartialEq, Eq, Structural)]
pub enum HttpMethod {
    Get,
    Post,
    Put,
    Patch,
    Delete,
    Head,
}

/// What the host is asked to do for one branch.
#[derive(Debug)]
pub enum HostRequest {
    Print(String),
    Time,
    GetInput(String),
    ReadFile(String, FileFormat),
    WriteFile(String, String),
    Http { method: HttpMethod, url: String, headers: Vec<(String, String)>, body: String },
}

/// The format named by a `readfile` argument.
pub open spec fn format_named(name: Seq<char>) -> Option<FileFormat> {
    if name == "text"@ {
        Some(FileFormat::Text)
    } else if name == "bin"@ {
        Some(FileFormat::Bin)
    } else if name == "json"@ {
        Some(FileFormat::Json)
    } else if name == "toml"@ {
        Some(FileFormat::Toml)
    } else if name == "yaml"@ {
        Some(FileFormat::Yaml)
    } else {
        None
    }
}

/// The method named by an `http_request` argument.
pub open spec fn method_named(name: Seq<char>) -> Option<HttpMethod> {
    if name == "get"@ {
        Some(HttpMethod::Get)
    } else if name == "post"@ {
        Some(HttpMethod::Post)
    } else if name == "put"@ {
        Some(HttpMethod::Put)
    } else if name == "patch"@ {
        Some(HttpMethod::Patch)
    } else if name == "delete"@ {
        Some(HttpMethod::Delete)
    } else if name == "head"@ {
        Some(HttpMethod::Head)
    } else {
        None
    }
}

fn format_of(name: &String) -> (r: Option<FileFormat>)
    ensures
        r == format_named(name@),
{
    if str_eq(name.as_str(), "text") {
        Some(FileFormat::Text)
    } else if str_eq(name.as_str(), "bin") {
        Some(FileFormat::Bin)
    } else if str_eq(name.as_str(), "json") {
        Some(FileFormat::Json)
    } else if str_eq(name.as_str(), "toml") {
        Some(FileFormat::Toml)
    } else if str_eq(name.as_str(), "yaml") {
        Some(FileFormat::Yaml)
    } else {
        None
    }
}

fn method_of(name: &String) -> (r: Option<HttpMethod>)
    ensures
        r == method_named(name@),
{
    if str_eq(name.as_str(), "get") {
        Some(HttpMethod::Get)
    } else if str_eq(name.as_str(), "post") {
        Some(HttpMethod::Post)
    } else if str_eq(name.as_str(), "put") {
        Some(HttpMethod::Put)
    } else if str_eq(name.as_str(), "patch") {
        Some(HttpMethod::Patch)
    } else if str_eq(name.as_str(), "delete") {
        Some(HttpMethod::Delete)
    } else if str_eq(name.as_str(), "head") {
        Some(HttpMethod::Head)
    } else {
        None
    }
}

/// The decimal text of an integer, with a minus sign when negative.
pub open spec fn number_text(n: int) -> Seq<char> {
    if n < 0 {
        seq!['-'] + decimal((-n) as nat)
    } else {
        decimal(n as nat)
    }
}

fn push_decimal(out: &mut String, n: u64)
    ensures
        final(out)@ == old(out)@ + decimal(n as nat),
    decreases n,
{
    if n >= 10 {
        push_decimal(out, n / 10);
    }
    let d = (n % 10) as u8;
    crate::ids::push_char(out, (d + 48u8) as char);
    assert(((d + 48u8) as char) == crate::ids::digit_char((n % 10) as nat));
    assert(old(out)@ + decimal(n as nat) =~= if n >= 10 {
        old(out)@ + decimal((n / 10) as nat) + seq![crate::ids::digit_char((n % 10) as nat)]
    } else {
        old(out)@ + seq![crate::ids::digit_char(n as nat)]
    });
}

/// The text that `print` shows for a value, for the values it shows.
pub open spec fn print_text(v: Value) -> Option<Seq<char>> {
    match v {
        Value::Str(t) => Some(t@),
        Value::Number(n) => Some(number_text(n as int)),
        Value::Bool(b) => Some(if b { "true"@ } else { "false"@ }),
        Value::Null => Some("null"@),
        _ => None,
    }
}

/// The texts of the values at `args`, one after another, while each has one.
pub open spec fn printed(s: &ValueStore, args: Seq<usize>) -> Option<Seq<char>>
    decreases args.len(),
{
    if args.len() == 0 {
        Some(Seq::empty())
    } else {
        match (printed(s, args.drop_last()), print_text(s.slots@[args.last() as int].value)) {
            (Some(a), Some(b)) => Some(a + b),
            _ => None,
        }
    }
}

fn append_text(out: &mut String, v: &Value) -> (ok: bool)
    ensures
        ok == print_text(*v) is Some,
        ok ==> final(out)@ == old(out)@ + print_text(*v)->Some_0,
{
    match v {
        Value::Str(t) => {
            push_str(out, t.as_str());
            true
        },
        Value::Number(n) => {
            if *n < 0 {
                crate::ids::push_char(out, '-');
                let m: u64 = if *n == i64::MIN { 9223372036854775808u64 } else { (-*n) as u64 };
                push_decimal(out, m);
            } else {
                push_decimal(out, *n as u64);
            }
            true
        },
        Value::Bool(b) => {
            push_str(out, if *b { "true" } else { "false" });
            true
        },
        Value::Null => {
            push_str(out, "null");
            true
        },
        _ => false,
    }
}

/// The request that the built-in `func` makes of the host for the branch
/// `context`, once permission and arguments are checked.
pub fn host_request(func: Builtin, args: &Vec<usize>, info: CodeArea, globals: &Globals, context: &Context) -> (r: Result<HostRequest, RuntimeError>)
    requires
        globals.stored_values.wf(),
        forall|i: int| 0 <= i < args@.len() ==> #[trigger] args@[i] < globals.stored_values.slots@.len(),
    ensures
        !is_host(func) ==> (r is Err && r->Err_0 is BuiltinError),
        is_host(func) && !globals.permissions.allows(func) ==> (r is Err && r->Err_0 is PermissionError),
        r is Ok ==> is_host(func) && globals.permissions.allows(func),
        r is Ok && param_specs(func) is Some ==> args_meet(param_specs(func)->Some_0, args@, &globals.stored_values, context.start_group),
        ({
            let s = &globals.stored_values;
            &&& func is Time && r is Ok ==> r->Ok_0 is Time
            &&& func is Print && globals.permissions.allows(func) ==> {
                &&& printed(s, args@) is None ==> (r is Err && r->Err_0 is TypeError)
                &&& printed(s, args@) is Some ==> (r matches Ok(HostRequest::Print(t)) && t@ == printed(s, args@)->Some_0)
            }
            &&& func is GetInput && r is Ok ==> (r matches Ok(HostRequest::GetInput(p)) && p@ == text_of(arg(s, args@, 0)))
            &&& func is WriteFile && r is Ok ==> (r matches Ok(HostRequest::WriteFile(p, d)) && p@ == text_of(arg(s, args@, 0)) && d@ == text_of(arg(s, args@, 1)))
            &&& func is ReadFile && globals.permissions.allows(func) ==> {
                let n = args@.len();
                let format = if n == 2 { format_named(text_of(arg(s, args@, 1))) } else { Some(FileFormat::Text) };
                &&& (n == 0 || n > 2) ==> (r is Err && r->Err_0 is BuiltinError)
                &&& 1 <= n <= 2 && !(arg(s, args@, 0) is Str) ==> (r is Err && r->Err_0 is BuiltinError)
                &&& n == 2 && !(arg(s, args@, 1) is Str) ==> (r is Err && r->Err_0 is BuiltinError)
                &&& 1 <= n <= 2 && arg(s, args@, 0) is Str && (n == 1 || arg(s, args@, 1) is Str) ==> {
                    &&& format is None ==> (r is Err && r->Err_0 is BuiltinError)
                    &&& format is Some ==> (r matches Ok(HostRequest::ReadFile(p, f)) && p@ == text_of(arg(s, args@, 0)) && f == format->Some_0)
                }
            }
            &&& func is HttpRequest && r is Ok ==> (r matches Ok(HostRequest::Http { method, url, headers, body }) && {
                &&& method_named(text_of(arg(s, args@, 0))) == Some(method)
                &&& url@ == text_of(arg(s, args@, 1))
                &&& body@ == text_of(arg(s, args@, 3))
                &&& headers@.len() == crate::store::dict_entries(arg(s, args@, 2)).len()
            })
        }),
{
    if !func.is_host() {
        return Err(RuntimeError::builtin("performed by the compiler", info));
    }
    if !globals.permissions.is_allowed(func) {
        return Err(RuntimeError::PermissionError { builtin: func, needs_flag: !func.is_safe(), info });
    }
    let s = &globals.stored_values;
    match func.params() {
        Some(ps) => {
            match check_arguments(&ps, args, info, s, context) {
                Ok(()) => {},
                Err(e) => {
                    return Err(e);
                },
            }
            proof {
                let specs = param_specs(func)->Some_0;
                assert forall|j: int| 0 <= j < specs.len() implies #[trigger] crate::dispatch::arg_meets(specs[j], s.slots@[args@[j] as int], context.start_group) by {
                    assert(crate::dispatch::arg_meets(ps@[j], s.slots@[args@[j] as int], context.start_group));
                }
                if specs.len() > 0 {
                    assert(crate::dispatch::arg_meets(specs[0], s.slots@[args@[0] as int], context.start_group));
                }
                if specs.len() > 1 {
                    assert(crate::dispatch::arg_meets(specs[1], s.slots@[args@[1] as int], context.start_group));
                }
                if specs.len() > 2 {
                    assert(crate::dispatch::arg_meets(specs[2], s.slots@[args@[2] as int], context.start_group));
                }
                if specs.len() > 3 {
                    assert(crate::dispatch::arg_meets(specs[3], s.slots@[args@[3] as int], context.start_group));
                }
            }
        },
        None => {},
    }
    proof {
        reveal_strlit("text");
        reveal_strlit("bin");
        reveal_strlit("json");
        reveal_strlit("toml");
        reveal_strlit("yaml");
    }
    match func {
        Builtin::Print => {
            let mut out = String::new();
            let mut i: usize = 0;
            while i < args.len()
                invariant
                    s.wf(),
                    func == Builtin::Print,
                    globals.permissions.allows(func),
                    *s == globals.stored_values,
                    i <= args@.len(),
                    forall|k: int| 0 <= k < args@.len() ==> #[trigger] args@[k] < s.slots@.len(),
                    printed(s, args@.subrange(0, i as int)) == Some(out@),
                decreases args.len() - i,
            {
                let ghost pre = out@;
                let ok = append_text(&mut out, s.get(args[i]));
                proof {
                    let sub = args@.subrange(0, i + 1);
                    assert(sub.drop_last() =~= args@.subrange(0, i as int));
                    assert(sub.last() == args@[i as int]);
                }
                if !ok {
                    proof {
                        lemma_printed_stops(s, args@, i as int);
                    }
                    return Err(RuntimeError::type_error("printable value", s.get(args[i]).variant_tag(), s.get_area(args[i]), info));
                }
                i = i + 1;
            }
            assert(args@.subrange(0, args@.len() as int) =~= args@);
            Ok(HostRequest::Print(out))
        },
        Builtin::Time => Ok(HostRequest::Time),
        Builtin::GetInput => match s.get(args[0]) {
            Value::Str(p) => Ok(HostRequest::GetInput(p.clone())),
            _ => Err(RuntimeError::builtin("Expected a string", info)),
        },
        Builtin::WriteFile => match (s.get(args[0]), s.get(args[1])) {
            (Value::Str(p), Value::Str(d)) => Ok(HostRequest::WriteFile(p.clone(), d.clone())),
            _ => Err(RuntimeError::builtin("Expected strings", info)),
        },
        Builtin::ReadFile => {
            if args.len() == 0 || args.len() > 2 {
                return Err(RuntimeError::builtin(
                    "Expected 1 or 2 arguments, the path to the file and the data format (default: utf-8)",
                    info,
                ));
            }
            let path = match s.get(args[0]) {
                Value::Str(p) => p.clone(),
                _ => {
                    return Err(RuntimeError::builtin("Path needs to be a string", info));
                },
            };
            let format = if args.len() == 2 {
                match s.get(args[1]) {
                    Value::Str(f) => format_of(f),
                    _ => {
                        return Err(RuntimeError::builtin("Data format needs to be a string (\"text\" or \"bin\")", info));
                    },
                }
            } else {
                Some(FileFormat::Text)
            };
            match format {
                Some(f) => Ok(HostRequest::ReadFile(path, f)),
                None => Err(RuntimeError::builtin(
                    "Invalid data format ( use \"text\", \"bin\", \"json\", \"toml\" or \"yaml\" )",
                    info,
                )),
            }
        },
        Builtin::HttpRequest => {
            let (method_name, url, entries, body) = match (s.get(args[0]), s.get(args[1]), s.get(args[2]), s.get(args[3])) {
                (Value::Str(m), Value::Str(u), Value::Dict(d), Value::Str(b)) => (m, u, d, b),
                _ => {
                    return Err(RuntimeError::builtin("Expected a method, a url, headers and a body", info));
                },
            };
            let method = match method_of(method_name) {
                Some(m) => m,
                None => {
                    return Err(RuntimeError::builtin("Request type not supported", info));
                },
            };
            let mut headers: Vec<(String, String)> = Vec::new();
            let mut k: usize = 0;
            proof {
                assert forall|j: int| 0 <= j < entries@.len() implies #[trigger] entries@[j].1 < s.slots@.len() by {
                    assert(crate::store::children(arg(s, args@, 2))[j] == entries@[j].1);
                }
            }
            while k < entries.len()
                invariant
                    s.wf(),
                    func == Builtin::HttpRequest,
                    globals.permissions.allows(func),
                    *s == globals.stored_values,
                    k <= entries@.len(),
                    headers@.len() == k,
                    forall|j: int| 0 <= j < entries@.len() ==> #[trigger] entries@[j].1 < s.slots@.len(),
                decreases entries.len() - k,
            {
                let v = entries[k].1;
                match s.get(v) {
                    Value::Str(t) => headers.push((entries[k].0.clone(), t.clone())),
                    other => {
                        return Err(RuntimeError::type_error("string header value", other.variant_tag(), s.get_area(v), info));
                    },
                }
                k = k + 1;
            }
            Ok(HostRequest::Http { method, url: url.clone(), headers, body: body.clone() })
        },
        _ => Err(RuntimeError::builtin("performed by the compiler", info)),
    }
}

proof fn lemma_printed_stops(s: &ValueStore, args: Seq<usize>, i: int)
    requires
        0 <= i < args.len(),
        print_text(s.slots@[args[i] as int].value) is None,
    ensures
        printed(s, args) is None,
    decreases args.len(),
{
    if i < args.len() - 1 {
        assert(args.drop_last()[i] == args[i]);
        lemma_printed_stops(s, args.drop_last(), i);
    }
}

} // verus!

verus! {

/// The value of a time in seconds; times past the range of numbers stay at its end.
pub fn time_value(secs: u64) -> (r: Value)
    ensures
        r == Value::Number(if secs > i64::MAX as u64 { i64::MAX } else { secs as i64 }),
{
    Value::Number(if secs > i64::MAX as u64 { i64::MAX } else { secs as i64 })
}

/// An array of the bytes as numbers, each in a fresh immutable slot.
pub fn bytes_value(bytes: &Vec<u8>, s: &mut ValueStore, group: Group, area: CodeArea) -> (r: Value)
    requires
        old(s).wf(),
    ensures
        final(s).wf(),
        final(s).extends(old(s)),
        r is Array,
        r->Array_0@.len() == bytes@.len(),
        forall|k: int| 0 <= k < bytes@.len() ==> (#[trigger] r->Array_0@[k]) < final(s).slots@.len()
            && final(s).slots@[r->Array_0@[k] as int].value == Value::Number(bytes@[k] as i64),
{
    let mut out: Vec<usize> = Vec::new();
    let mut k: usize = 0;
    while k < bytes.len()
        invariant
            s.wf(),
            s.extends(old(s)),
            k <= bytes@.len(),
            out@.len() == k,
            forall|j: int| 0 <= j < k ==> (#[trigger] out@[j]) < s.slots@.len()
                && s.slots@[out@[j] as int].value == Value::Number(bytes@[j] as i64),
        decreases bytes.len() - k,
    {
        let ghost before = *s;
        let i = s.store(Value::Number(bytes[k] as i64), group, area, false);
        proof {
            assert forall|q: int| 0 <= q < old(s).slots@.len() implies #[trigger] s.slots@[q] == old(s).slots@[q] by {
                assert(before.slots@[q] == old(s).slots@[q]);
            }
            assert forall|q: int| 0 <= q < old(s).slots@.len() implies #[trigger] s.ranks@[q] == old(s).ranks@[q] by {
                assert(before.ranks@[q] == old(s).ranks@[q]);
            }
            assert forall|j: int| 0 <= j < k implies s.slots@[#[trigger] out@[j] as int] == before.slots@[out@[j] as int] by {
            }
        }
        out.push(i);
        k = k + 1;
    }
    Value::Array(out)
}

/// The dictionary of an answer to an HTTP request: its `status`, its
/// `headers` by name (a later header of a name replaces an earlier one),
/// and its `text`.
pub fn http_response_value(status: u16, headers: &Vec<(String, String)>, text: String, s: &mut ValueStore, group: Group, area: CodeArea) -> (r: Value)
    requires
        old(s).wf(),
    ensures
        final(s).wf(),
        final(s).extends(old(s)),
        r is Dict,
        unique_keys(r),
        forall|k: int| 0 <= k < crate::store::children(r).len() ==> #[trigger] crate::store::children(r)[k] < final(s).slots@.len(),
        lookup(r->Dict_0@, "status"@) matches Some(i) && final(s).slots@[i as int].value == Value::Number(status as i64),
        lookup(r->Dict_0@, "text"@) matches Some(i) && final(s).slots@[i as int].value matches Value::Str(t) && t@ == text@,
        lookup(r->Dict_0@, "headers"@) matches Some(i) && final(s).slots@[i as int].value is Dict,
{
    let ghost s0 = *s;
    let mut names: Vec<(String, usize)> = Vec::new();
    let mut k: usize = 0;
    while k < headers.len()
        invariant
            s.wf(),
            s.extends(&s0),
            s0 == *old(s),
            k <= headers@.len(),
            forall|p: int, q: int| 0 <= p < q < names@.len() ==> #[trigger] names@[p].0@ != #[trigger] names@[q].0@,
            forall|j: int| 0 <= j < names@.len() ==> #[trigger] names@[j].1 < s.slots@.len(),
        decreases headers.len() - k,
    {
        let ghost before = *s;
        let v = s.store(Value::Str(headers[k].1.clone()), group, area, false);
        proof {
            assert forall|q: int| 0 <= q < s0.slots@.len() implies #[trigger] s.slots@[q] == s0.slots@[q] by {
                assert(before.slots@[q] == s0.slots@[q]);
            }
            assert forall|q: int| 0 <= q < s0.slots@.len() implies #[trigger] s.ranks@[q] == s0.ranks@[q] by {
                assert(before.ranks@[q] == s0.ranks@[q]);
            }
        }
        let mut found = false;
        let mut p: usize = 0;
        while p < names.len()
            invariant
                p <= names@.len(),
                k < headers@.len(),
                v < s.slots@.len(),
                forall|a: int, b: int| 0 <= a < b < names@.len() ==> #[trigger] names@[a].0@ != #[trigger] names@[b].0@,
                forall|j: int| 0 <= j < names@.len() ==> #[trigger] names@[j].1 < s.slots@.len(),
                !found ==> forall|j: int| 0 <= j < p ==> #[trigger] names@[j].0@ != headers@[k as int].0@,
                found ==> exists|j: int| 0 <= j < names@.len() && #[trigger] names@[j].0@ == headers@[k as int].0@,
            decreases names.len() - p,
        {
            if !found && crate::value::strings_equal(&names[p].0, &headers[k].0) {
                let name = names[p].0.clone();
                let ghost pre = names@;
                names.set(p, (name, v));
                assert(names@[p as int].0@ == pre[p as int].0@);
                assert forall|a: int, b: int| 0 <= a < b < names@.len() implies #[trigger] names@[a].0@ != #[trigger] names@[b].0@ by {
                    assert(names@[a].0@ == pre[a].0@);
                    assert(names@[b].0@ == pre[b].0@);
                }
                assert(names@[p as int].0@ == headers@[k as int].0@);
                found = true;
            }
            p = p + 1;
        }
        if !found {
            let ghost pre = names@;
            names.push((headers[k].0.clone(), v));
            assert forall|a: int, b: int| 0 <= a < b < names@.len() implies #[trigger] names@[a].0@ != #[trigger] names@[b].0@ by {
                if b < pre.len() {
                    assert(names@[a] == pre[a]);
                    assert(names@[b] == pre[b]);
                } else {
                    assert(names@[a] == pre[a]);
                }
            }
        }
        k = k + 1;
    }
    let header_dict = Value::Dict(names);
    proof {
        assert forall|j: int| 0 <= j < crate::store::children(header_dict).len() implies #[trigger] crate::store::children(header_dict)[j] < s.slots@.len() by {
            assert(crate::store::children(header_dict)[j] == names@[j].1);
        }
    }
    let ghost s1 = *s;
    let hi = s.store(header_dict, group, area, false);
    let si = s.store(Value::Number(status as i64), group, area, false);
    let ti = s.store(Value::Str(text), group, area, false);
    let mut entries: Vec<(String, usize)> = Vec::new();
    entries.push(("status".to_owned(), si));
    entries.push(("headers".to_owned(), hi));
    entries.push(("text".to_owned(), ti));
    proof {
        reveal_strlit("status");
        reveal_strlit("headers");
        reveal_strlit("text");
        assert("status"@ != "headers"@) by {
            assert("status"@.len() != "headers"@.len());
        }
        assert("status"@ != "text"@) by {
            assert("status"@.len() != "text"@.len());
        }
        assert("headers"@ != "text"@) by {
            assert("headers"@.len() != "text"@.len());
        }
        assert(entries@[1].0@ != entries@[0].0@);
        assert(entries@[2].0@ != entries@[0].0@);
        assert(entries@[2].0@ != entries@[1].0@);
        assert(lookup(entries@, "text"@) == lookup(entries@.drop_first(), "text"@));
        assert(entries@.drop_first().drop_first()[0].0@ == "text"@);
        assert(lookup(entries@.drop_first(), "text"@) == lookup(entries@.drop_first().drop_first(), "text"@));
        assert(lookup(entries@, "headers"@) == lookup(entries@.drop_first(), "headers"@));
        assert forall|q: int| 0 <= q < old(s).slots@.len() implies #[trigger] s.slots@[q] == old(s).slots@[q] by {
            assert(s1.slots@[q] == old(s).slots@[q]);
        }
        assert forall|q: int| 0 <= q < old(s).slots@.len() implies #[trigger] s.ranks@[q] == old(s).ranks@[q] by {
            assert(s1.ranks@[q] == old(s).ranks@[q]);
        }
    }
    let r = Value::Dict(entries);
    proof {
        assert forall|j: int| 0 <= j < crate::store::children(r).len() implies #[trigger] crate::store::children(r)[j] < s.slots@.len() by {
            assert(crate::store::children(r)[j] == entries@[j].1);
        }
    }
    r
}

/// Stores the host's answer for leaf `leaf` and makes it the leaf's return
/// value; an answer that refers to slots that do not exist is refused.
pub fn set_leaf_result(value: Value, info: CodeArea, globals: &mut Globals, contexts: &mut crate::context::FullContext, leaf: usize) -> (r: Result<(), RuntimeError>)
    requires
        old(globals).stored_values.wf(),
        leaf < old(contexts)@.len(),
    ensures
        final(globals).stored_values.wf(),
        final(globals).stored_values.extends(&old(globals).stored_values),
        r is Ok ==> final(contexts)@ == old(contexts)@.update(
            leaf as int,
            crate::context::ContextView { return_value: old(globals).stored_values.slots@.len() as usize, ..old(contexts)@[leaf as int] },
        ),
        r is Ok <==> unique_keys(value) && forall|k: int|
            0 <= k < crate::store::children(value).len() ==> #[trigger] crate::store::children(value)[k] < old(globals).stored_values.slots@.len(),
        r is Ok ==> final(globals).stored_values.slots@ == old(globals).stored_values.slots@.push(
            crate::store::StoredSlot { value, mutable: false, fn_context: old(contexts)@[leaf as int].start_group, def_area: info },
        ),
        r is Err ==> final(contexts)@ == old(contexts)@ && final(globals).stored_values == old(globals).stored_values,
{
    let group = contexts.leaves[leaf].start_group;
    match globals.stored_values.store_checked(value, group, info, false) {
        Some(i) => {
            contexts.leaves[leaf].return_value = i;
            assert(contexts@ =~= old(contexts)@.update(
                leaf as int,
                crate::context::ContextView { return_value: i, ..old(contexts)@[leaf as int] },
            ));
            Ok(())
        },
        None => Err(RuntimeError::builtin("the answer refers to slots that do not exist", info)),
    }
}

} // verus!
