//! The catalog of built-in operations and the engine that dispatches them.
use vstd::prelude::*;

use crate::text::str_eq;
use crate::value::{
    TYPE_ARRAY, TYPE_BOOL, TYPE_DICT, TYPE_MACRO, TYPE_NUMBER, TYPE_STRING,
};

verus! {

/// The built-in operations. Operators are catalog entries under reserved names.
#[derive(Debug, Clone, Copy, PartialEq, Eq, Structural, Hash)]
pub enum Builtin {
    Assert,
    Matches,
    B64Encode,
    B64Decode,
    Add,
    Append,
    EditObj,
    Mutability,
    TriggerFnContext,
    Random,
    Pop,
    Substr,
    RemoveIndex,
    Regex,
    RangeOp,
    IncrOp,
    DecrOp,
    PreIncrOp,
    PreDecrOp,
    NegOp,
    NotOp,
    UnaryRangeOp,
    OrOp,
    AndOp,
    MoreThanOp,
    LessThanOp,
    MoreOrEqOp,
    LessOrEqOp,
    EqOp,
    NotEqOp,
    TimesOp,
    PlusOp,
    MinusOp,
    AssignOp,
    SwapOp,
    HasOp,
    SubtractOp,
    AddOp,
    MultiplyOp,
    EitherOp,
    Min,
    Max,
    Abs,
    Print,
    Time,
    GetInput,
    ReadFile,
    WriteFile,
    HttpRequest,
    ExtendTriggerFunc,
    SplitStr,
}

/// The name under which a built-in is called.
pub open spec fn builtin_name(b: Builtin) -> Seq<char> {
    match b {
        Builtin::Assert => "assert"@,
        Builtin::Matches => "matches"@,
        Builtin::B64Encode => "b64encode"@,
        Builtin::B64Decode => "b64decode"@,
        Builtin::Add => "add"@,
        Builtin::Append => "append"@,
        Builtin::EditObj => "edit_obj"@,
        Builtin::Mutability => "mutability"@,
        Builtin::TriggerFnContext => "trigger_fn_context"@,
        Builtin::Random => "random"@,
        Builtin::Pop => "pop"@,
        Builtin::Substr => "substr"@,
        Builtin::RemoveIndex => "remove_index"@,
        Builtin::Regex => "regex"@,
        Builtin::RangeOp => "_range_"@,
        Builtin::IncrOp => "_increment_"@,
        Builtin::DecrOp => "_decrement_"@,
        Builtin::PreIncrOp => "_pre_increment_"@,
        Builtin::PreDecrOp => "_pre_decrement_"@,
        Builtin::NegOp => "_negate_"@,
        Builtin::NotOp => "_not_"@,
        Builtin::UnaryRangeOp => "_unary_range_"@,
        Builtin::OrOp => "_or_"@,
        Builtin::AndOp => "_and_"@,
        Builtin::MoreThanOp => "_more_than_"@,
        Builtin::LessThanOp => "_less_than_"@,
        Builtin::MoreOrEqOp => "_more_or_equal_"@,
        Builtin::LessOrEqOp => "_less_or_equal_"@,
        Builtin::EqOp => "_equal_"@,
        Builtin::NotEqOp => "_not_equal_"@,
        Builtin::TimesOp => "_times_"@,
        Builtin::PlusOp => "_plus_"@,
        Builtin::MinusOp => "_minus_"@,
        Builtin::AssignOp => "_assign_"@,
        Builtin::SwapOp => "_swap_"@,
        Builtin::HasOp => "_has_"@,
        Builtin::SubtractOp => "_subtract_"@,
        Builtin::AddOp => "_add_"@,
        Builtin::MultiplyOp => "_multiply_"@,
        Builtin::EitherOp => "_either_"@,
        Builtin::Min => "min"@,
        Builtin::Max => "max"@,
        Builtin::Abs => "abs"@,
        Builtin::Print => "print"@,
        Builtin::Time => "time"@,
        Builtin::GetInput => "get_input"@,
        Builtin::ReadFile => "readfile"@,
        Builtin::WriteFile => "writefile"@,
        Builtin::HttpRequest => "http_request"@,
        Builtin::ExtendTriggerFunc => "extend_trigger_func"@,
        Builtin::SplitStr => "split_str"@,
    }
}

/// What a catalog entry asks of one positional argument.
#[derive(Debug, Copy, Clone, PartialEq, Eq, Structural)]
pub struct ParamSpec {
    /// The type tag the argument must have, if any.
    pub type_tag: Option<u16>,
    /// Whether the operation updates the argument in place.
    pub mutable: bool,
}

pub open spec fn param(type_tag: Option<u16>, mutable: bool) -> ParamSpec {
    ParamSpec { type_tag, mutable }
}

/// The declared parameters of a built-in; `None` for one that checks its
/// arguments itself.
pub open spec fn param_specs(b: Builtin) -> Option<Seq<ParamSpec>> {
    match b {
        Builtin::Assert => Some(seq![param(Some(TYPE_BOOL), false)]),
        Builtin::Matches => Some(seq![param(None, false), param(None, false)]),
        Builtin::B64Encode => Some(seq![param(Some(TYPE_STRING), false)]),
        Builtin::B64Decode => Some(seq![param(Some(TYPE_STRING), false)]),
        Builtin::Add => None,
        Builtin::Append => Some(seq![param(Some(TYPE_ARRAY), true), param(None, false)]),
        Builtin::EditObj => Some(seq![param(None, true), param(None, false), param(None, false)]),
        Builtin::Mutability => Some(seq![param(None, false)]),
        Builtin::TriggerFnContext => Some(seq![]),
        Builtin::Random => None,
        Builtin::Pop => Some(seq![param(None, true)]),
        Builtin::Substr => Some(seq![param(Some(TYPE_STRING), false), param(Some(TYPE_NUMBER), false), param(Some(TYPE_NUMBER), false)]),
        Builtin::RemoveIndex => Some(seq![param(None, true), param(Some(TYPE_NUMBER), false)]),
        Builtin::Regex => Some(seq![param(Some(TYPE_STRING), false), param(Some(TYPE_STRING), false), param(Some(TYPE_STRING), false), param(None, false)]),
        Builtin::RangeOp => Some(seq![param(None, false), param(Some(TYPE_NUMBER), false)]),
        Builtin::IncrOp => Some(seq![param(Some(TYPE_NUMBER), true)]),
        Builtin::DecrOp => Some(seq![param(Some(TYPE_NUMBER), true)]),
        Builtin::PreIncrOp => Some(seq![param(Some(TYPE_NUMBER), true)]),
        Builtin::PreDecrOp => Some(seq![param(Some(TYPE_NUMBER), true)]),
        Builtin::NegOp => Some(seq![param(Some(TYPE_NUMBER), false)]),
        Builtin::NotOp => Some(seq![param(Some(TYPE_BOOL), false)]),
        Builtin::UnaryRangeOp => Some(seq![param(Some(TYPE_NUMBER), false)]),
        Builtin::OrOp => Some(seq![param(Some(TYPE_BOOL), false), param(Some(TYPE_BOOL), false)]),
        Builtin::AndOp => Some(seq![param(Some(TYPE_BOOL), false), param(Some(TYPE_BOOL), false)]),
        Builtin::MoreThanOp => Some(seq![param(Some(TYPE_NUMBER), false), param(Some(TYPE_NUMBER), false)]),
        Builtin::LessThanOp => Some(seq![param(Some(TYPE_NUMBER), false), param(Some(TYPE_NUMBER), false)]),
        Builtin::MoreOrEqOp => Some(seq![param(Some(TYPE_NUMBER), false), param(Some(TYPE_NUMBER), false)]),
        Builtin::LessOrEqOp => Some(seq![param(Some(TYPE_NUMBER), false), param(Some(TYPE_NUMBER), false)]),
        Builtin::EqOp => Some(seq![param(None, false), param(None, false)]),
        Builtin::NotEqOp => Some(seq![param(None, false), param(None, false)]),
        Builtin::TimesOp => Some(seq![param(None, false), param(Some(TYPE_NUMBER), false)]),
        Builtin::PlusOp => Some(seq![param(None, false), param(None, false)]),
        Builtin::MinusOp => Some(seq![param(Some(TYPE_NUMBER), false), param(Some(TYPE_NUMBER), false)]),
        Builtin::AssignOp => Some(seq![param(None, true), param(None, false)]),
        Builtin::SwapOp => Some(seq![param(None, true), param(None, true)]),
        Builtin::HasOp => Some(seq![param(None, false), param(None, false)]),
        Builtin::SubtractOp => Some(seq![param(Some(TYPE_NUMBER), true), param(Some(TYPE_NUMBER), false)]),
        Builtin::AddOp => Some(seq![param(None, true), param(None, false)]),
        Builtin::MultiplyOp => Some(seq![param(None, true), param(Some(TYPE_NUMBER), false)]),
        Builtin::EitherOp => Some(seq![param(None, false), param(None, false)]),
        Builtin::Min => Some(seq![param(Some(TYPE_NUMBER), false), param(Some(TYPE_NUMBER), false)]),
        Builtin::Max => Some(seq![param(Some(TYPE_NUMBER), false), param(Some(TYPE_NUMBER), false)]),
        Builtin::Abs => Some(seq![param(Some(TYPE_NUMBER), false)]),
        Builtin::Print => None,
        Builtin::Time => Some(seq![]),
        Builtin::GetInput => Some(seq![param(Some(TYPE_STRING), false)]),
        Builtin::ReadFile => None,
        Builtin::WriteFile => Some(seq![param(Some(TYPE_STRING), false), param(Some(TYPE_STRING), false)]),
        Builtin::HttpRequest => Some(seq![param(Some(TYPE_STRING), false), param(Some(TYPE_STRING), false), param(Some(TYPE_DICT), false), param(Some(TYPE_STRING), false)]),
        Builtin::ExtendTriggerFunc => Some(seq![param(None, false), param(Some(TYPE_MACRO), false)]),
        Builtin::SplitStr => Some(seq![param(Some(TYPE_STRING), false), param(Some(TYPE_STRING), false)]),
    }
}

impl Builtin {
    /// The name under which the built-in is called.
    pub fn name(&self) -> (r: &'static str)
        ensures
            r@ == builtin_name(*self),
    {
        match self {
            Builtin::Assert => "assert",
            Builtin::Matches => "matches",
            Builtin::B64Encode => "b64encode",
            Builtin::B64Decode => "b64decode",
            Builtin::Add => "add",
            Builtin::Append => "append",
            Builtin::EditObj => "edit_obj",
            Builtin::Mutability => "mutability",
            Builtin::TriggerFnContext => "trigger_fn_context",
            Builtin::Random => "random",
            Builtin::Pop => "pop",
            Builtin::Substr => "substr",
            Builtin::RemoveIndex => "remove_index",
            Builtin::Regex => "regex",
            Builtin::RangeOp => "_range_",
            Builtin::IncrOp => "_increment_",
            Builtin::DecrOp => "_decrement_",
            Builtin::PreIncrOp => "_pre_increment_",
            Builtin::PreDecrOp => "_pre_decrement_",
            Builtin::NegOp => "_negate_",
            Builtin::NotOp => "_not_",
            Builtin::UnaryRangeOp => "_unary_range_",
            Builtin::OrOp => "_or_",
            Builtin::AndOp => "_and_",
            Builtin::MoreThanOp => "_more_than_",
            Builtin::LessThanOp => "_less_than_",
            Builtin::MoreOrEqOp => "_more_or_equal_",
            Builtin::LessOrEqOp => "_less_or_equal_",
            Builtin::EqOp => "_equal_",
            Builtin::NotEqOp => "_not_equal_",
            Builtin::TimesOp => "_times_",
            Builtin::PlusOp => "_plus_",
            Builtin::MinusOp => "_minus_",
            Builtin::AssignOp => "_assign_",
            Builtin::SwapOp => "_swap_",
            Builtin::HasOp => "_has_",
            Builtin::SubtractOp => "_subtract_",
            Builtin::AddOp => "_add_",
            Builtin::MultiplyOp => "_multiply_",
            Builtin::EitherOp => "_either_",
            Builtin::Min => "min",
            Builtin::Max => "max",
            Builtin::Abs => "abs",
            Builtin::Print => "print",
            Builtin::Time => "time",
            Builtin::GetInput => "get_input",
            Builtin::ReadFile => "readfile",
            Builtin::WriteFile => "writefile",
            Builtin::HttpRequest => "http_request",
            Builtin::ExtendTriggerFunc => "extend_trigger_func",
            Builtin::SplitStr => "split_str",
        }
    }

    /// The built-in called by `name`, if any.
    pub fn from_name(name: &str) -> (r: Option<Builtin>)
        ensures
            r matches Some(b) ==> builtin_name(b) == name@,
            r is None ==> forall|b: Builtin| builtin_name(b) != name@,
    {
        if str_eq(name, "assert") {
            return Some(Builtin::Assert);
        }
        if str_eq(name, "matches") {
            return Some(Builtin::Matches);
        }
        if str_eq(name, "b64encode") {
            return Some(Builtin::B64Encode);
        }
        if str_eq(name, "b64decode") {
            return Some(Builtin::B64Decode);
        }
        if str_eq(name, "add") {
            return Some(Builtin::Add);
        }
        if str_eq(name, "append") {
            return Some(Builtin::Append);
        }
        if str_eq(name, "edit_obj") {
            return Some(Builtin::EditObj);
        }
        if str_eq(name, "mutability") {
            return Some(Builtin::Mutability);
        }
        if str_eq(name, "trigger_fn_context") {
            return Some(Builtin::TriggerFnContext);
        }
        if str_eq(name, "random") {
            return Some(Builtin::Random);
        }
        if str_eq(name, "pop") {
            return Some(Builtin::Pop);
        }
        if str_eq(name, "substr") {
            return Some(Builtin::Substr);
        }
        if str_eq(name, "remove_index") {
            return Some(Builtin::RemoveIndex);
        }
        if str_eq(name, "regex") {
            return Some(Builtin::Regex);
        }
        if str_eq(name, "_range_") {
            return Some(Builtin::RangeOp);
        }
        if str_eq(name, "_increment_") {
            return Some(Builtin::IncrOp);
        }
        if str_eq(name, "_decrement_") {
            return Some(Builtin::DecrOp);
        }
        if str_eq(name, "_pre_increment_") {
            return Some(Builtin::PreIncrOp);
        }
        if str_eq(name, "_pre_decrement_") {
            return Some(Builtin::PreDecrOp);
        }
        if str_eq(name, "_negate_") {
            return Some(Builtin::NegOp);
        }
        if str_eq(name, "_not_") {
            return Some(Builtin::NotOp);
        }
        if str_eq(name, "_unary_range_") {
            return Some(Builtin::UnaryRangeOp);
        }
        if str_eq(name, "_or_") {
            return Some(Builtin::OrOp);
        }
        if str_eq(name, "_and_") {
            return Some(Builtin::AndOp);
        }
        if str_eq(name, "_more_than_") {
            return Some(Builtin::MoreThanOp);
        }
        if str_eq(name, "_less_than_") {
            return Some(Builtin::LessThanOp);
        }
        if str_eq(name, "_more_or_equal_") {
            return Some(Builtin::MoreOrEqOp);
        }
        if str_eq(name, "_less_or_equal_") {
            return Some(Builtin::LessOrEqOp);
        }
        if str_eq(name, "_equal_") {
            return Some(Builtin::EqOp);
        }
        if str_eq(name, "_not_equal_") {
            return Some(Builtin::NotEqOp);
        }
        if str_eq(name, "_intdivided_by_") {
        }
        if str_eq(name, "_times_") {
            return Some(Builtin::TimesOp);
        }
        if str_eq(name, "_mod_") {
        }
        if str_eq(name, "_plus_") {
            return Some(Builtin::PlusOp);
        }
        if str_eq(name, "_minus_") {
            return Some(Builtin::MinusOp);
        }
        if str_eq(name, "_assign_") {
            return Some(Builtin::AssignOp);
        }
        if str_eq(name, "_swap_") {
            return Some(Builtin::SwapOp);
        }
        if str_eq(name, "_has_") {
            return Some(Builtin::HasOp);
        }
        if str_eq(name, "_subtract_") {
            return Some(Builtin::SubtractOp);
        }
        if str_eq(name, "_add_") {
            return Some(Builtin::AddOp);
        }
        if str_eq(name, "_multiply_") {
            return Some(Builtin::MultiplyOp);
        }
        if str_eq(name, "_intdivide_") {
        }
        if str_eq(name, "_modulate_") {
        }
        if str_eq(name, "_either_") {
            return Some(Builtin::EitherOp);
        }
        if str_eq(name, "min") {
            return Some(Builtin::Min);
        }
        if str_eq(name, "max") {
            return Some(Builtin::Max);
        }
        if str_eq(name, "abs") {
            return Some(Builtin::Abs);
        }
        if str_eq(name, "print") {
            return Some(Builtin::Print);
        }
        if str_eq(name, "time") {
            return Some(Builtin::Time);
        }
        if str_eq(name, "get_input") {
            return Some(Builtin::GetInput);
        }
        if str_eq(name, "readfile") {
            return Some(Builtin::ReadFile);
        }
        if str_eq(name, "writefile") {
            return Some(Builtin::WriteFile);
        }
        if str_eq(name, "http_request") {
            return Some(Builtin::HttpRequest);
        }
        if str_eq(name, "extend_trigger_func") {
            return Some(Builtin::ExtendTriggerFunc);
        }
        if str_eq(name, "split_str") {
            return Some(Builtin::SplitStr);
        }
        None
    }

    /// The declared parameters of the built-in.
    pub fn params(&self) -> (r: Option<Vec<ParamSpec>>)
        ensures
            match (r, param_specs(*self)) {
                (Some(v), Some(s)) => v@ == s,
                (None, None) => true,
                _ => false,
            },
    {
        let r = match self {
            Builtin::Assert => Some(vec![ParamSpec { type_tag: Some(TYPE_BOOL), mutable: false }]),
            Builtin::Matches => Some(vec![ParamSpec { type_tag: None, mutable: false }, ParamSpec { type_tag: None, mutable: false }]),
            Builtin::B64Encode => Some(vec![ParamSpec { type_tag: Some(TYPE_STRING), mutable: false }]),
            Builtin::B64Decode => Some(vec![ParamSpec { type_tag: Some(TYPE_STRING), mutable: false }]),
            Builtin::Add => None,
            Builtin::Append => Some(vec![ParamSpec { type_tag: Some(TYPE_ARRAY), mutable: true }, ParamSpec { type_tag: None, mutable: false }]),
            Builtin::EditObj => Some(vec![ParamSpec { type_tag: None, mutable: true }, ParamSpec { type_tag: None, mutable: false }, ParamSpec { type_tag: None, mutable: false }]),
            Builtin::Mutability => Some(vec![ParamSpec { type_tag: None, mutable: false }]),
            Builtin::TriggerFnContext => Some(vec![]),
            Builtin::Random => None,
            Builtin::Pop => Some(vec![ParamSpec { type_tag: None, mutable: true }]),
            Builtin::Substr => Some(vec![ParamSpec { type_tag: Some(TYPE_STRING), mutable: false }, ParamSpec { type_tag: Some(TYPE_NUMBER), mutable: false }, ParamSpec { type_tag: Some(TYPE_NUMBER), mutable: false }]),
            Builtin::RemoveIndex => Some(vec![ParamSpec { type_tag: None, mutable: true }, ParamSpec { type_tag: Some(TYPE_NUMBER), mutable: false }]),
            Builtin::Regex => Some(vec![ParamSpec { type_tag: Some(TYPE_STRING), mutable: false }, ParamSpec { type_tag: Some(TYPE_STRING), mutable: false }, ParamSpec { type_tag: Some(TYPE_STRING), mutable: false }, ParamSpec { type_tag: None, mutable: false }]),
            Builtin::RangeOp => Some(vec![ParamSpec { type_tag: None, mutable: false }, ParamSpec { type_tag: Some(TYPE_NUMBER), mutable: false }]),
            Builtin::IncrOp => Some(vec![ParamSpec { type_tag: Some(TYPE_NUMBER), mutable: true }]),
            Builtin::DecrOp => Some(vec![ParamSpec { type_tag: Some(TYPE_NUMBER), mutable: true }]),
            Builtin::PreIncrOp => Some(vec![ParamSpec { type_tag: Some(TYPE_NUMBER), mutable: true }]),
            Builtin::PreDecrOp => Some(vec![ParamSpec { type_tag: Some(TYPE_NUMBER), mutable: true }]),
            Builtin::NegOp => Some(vec![ParamSpec { type_tag: Some(TYPE_NUMBER), mutable: false }]),
            Builtin::NotOp => Some(vec![ParamSpec { type_tag: Some(TYPE_BOOL), mutable: false }]),
            Builtin::UnaryRangeOp => Some(vec![ParamSpec { type_tag: Some(TYPE_NUMBER), mutable: false }]),
            Builtin::OrOp => Some(vec![ParamSpec { type_tag: Some(TYPE_BOOL), mutable: false }, ParamSpec { type_tag: Some(TYPE_BOOL), mutable: false }]),
            Builtin::AndOp => Some(vec![ParamSpec { type_tag: Some(TYPE_BOOL), mutable: false }, ParamSpec { type_tag: Some(TYPE_BOOL), mutable: false }]),
            Builtin::MoreThanOp => Some(vec![ParamSpec { type_tag: Some(TYPE_NUMBER), mutable: false }, ParamSpec { type_tag: Some(TYPE_NUMBER), mutable: false }]),
            Builtin::LessThanOp => Some(vec![ParamSpec { type_tag: Some(TYPE_NUMBER), mutable: false }, ParamSpec { type_tag: Some(TYPE_NUMBER), mutable: false }]),
            Builtin::MoreOrEqOp => Some(vec![ParamSpec { type_tag: Some(TYPE_NUMBER), mutable: false }, ParamSpec { type_tag: Some(TYPE_NUMBER), mutable: false }]),
            Builtin::LessOrEqOp => Some(vec![ParamSpec { type_tag: Some(TYPE_NUMBER), mutable: false }, ParamSpec { type_tag: Some(TYPE_NUMBER), mutable: false }]),
            Builtin::EqOp => Some(vec![ParamSpec { type_tag: None, mutable: false }, ParamSpec { type_tag: None, mutable: false }]),
            Builtin::NotEqOp => Some(vec![ParamSpec { type_tag: None, mutable: false }, ParamSpec { type_tag: None, mutable: false }]),
            Builtin::TimesOp => Some(vec![ParamSpec { type_tag: None, mutable: false }, ParamSpec { type_tag: Some(TYPE_NUMBER), mutable: false }]),
            Builtin::PlusOp => Some(vec![ParamSpec { type_tag: None, mutable: false }, ParamSpec { type_tag: None, mutable: false }]),
            Builtin::MinusOp => Some(vec![ParamSpec { type_tag: Some(TYPE_NUMBER), mutable: false }, ParamSpec { type_tag: Some(TYPE_NUMBER), mutable: false }]),
            Builtin::AssignOp => Some(vec![ParamSpec { type_tag: None, mutable: true }, ParamSpec { type_tag: None, mutable: false }]),
            Builtin::SwapOp => Some(vec![ParamSpec { type_tag: None, mutable: true }, ParamSpec { type_tag: None, mutable: true }]),
            Builtin::HasOp => Some(vec![ParamSpec { type_tag: None, mutable: false }, ParamSpec { type_tag: None, mutable: false }]),
            Builtin::SubtractOp => Some(vec![ParamSpec { type_tag: Some(TYPE_NUMBER), mutable: true }, ParamSpec { type_tag: Some(TYPE_NUMBER), mutable: false }]),
            Builtin::AddOp => Some(vec![ParamSpec { type_tag: None, mutable: true }, ParamSpec { type_tag: None, mutable: false }]),
            Builtin::MultiplyOp => Some(vec![ParamSpec { type_tag: None, mutable: true }, ParamSpec { type_tag: Some(TYPE_NUMBER), mutable: false }]),
            Builtin::EitherOp => Some(vec![ParamSpec { type_tag: None, mutable: false }, ParamSpec { type_tag: None, mutable: false }]),
            Builtin::Min => Some(vec![ParamSpec { type_tag: Some(TYPE_NUMBER), mutable: false }, ParamSpec { type_tag: Some(TYPE_NUMBER), mutable: false }]),
            Builtin::Max => Some(vec![ParamSpec { type_tag: Some(TYPE_NUMBER), mutable: false }, ParamSpec { type_tag: Some(TYPE_NUMBER), mutable: false }]),
            Builtin::Abs => Some(vec![ParamSpec { type_tag: Some(TYPE_NUMBER), mutable: false }]),
            Builtin::Print => None,
            Builtin::Time => Some(vec![]),
            Builtin::GetInput => Some(vec![ParamSpec { type_tag: Some(TYPE_STRING), mutable: false }]),
            Builtin::ReadFile => None,
            Builtin::WriteFile => Some(vec![ParamSpec { type_tag: Some(TYPE_STRING), mutable: false }, ParamSpec { type_tag: Some(TYPE_STRING), mutable: false }]),
            Builtin::HttpRequest => Some(vec![ParamSpec { type_tag: Some(TYPE_STRING), mutable: false }, ParamSpec { type_tag: Some(TYPE_STRING), mutable: false }, ParamSpec { type_tag: Some(TYPE_DICT), mutable: false }, ParamSpec { type_tag: Some(TYPE_STRING), mutable: false }]),
            Builtin::ExtendTriggerFunc => Some(vec![ParamSpec { type_tag: None, mutable: false }, ParamSpec { type_tag: Some(TYPE_MACRO), mutable: false }]),
            Builtin::SplitStr => Some(vec![ParamSpec { type_tag: Some(TYPE_STRING), mutable: false }, ParamSpec { type_tag: Some(TYPE_STRING), mutable: false }]),
        };
        proof {
            if r is Some && param_specs(*self) is Some {
                assert(r->Some_0@ =~= param_specs(*self)->Some_0);
            }
        }
        r
    }
}

/// Whether a built-in may run without being allowed explicitly: all but
/// the ones that reach files or the network.
pub open spec fn builtin_safe(b: Builtin) -> bool {
    !(b is ReadFile || b is WriteFile || b is HttpRequest)
}

/// Whether the work of a built-in happens outside the compiler: the host
/// performs it on a request that `host_request` builds.
pub open spec fn is_host(b: Builtin) -> bool {
    b is Print || b is Time || b is GetInput || b is ReadFile || b is WriteFile || b is HttpRequest
}

impl Builtin {
    /// Whether the built-in may run without being allowed explicitly.
    pub fn is_safe(&self) -> (r: bool)
        ensures
            r == builtin_safe(*self),
    {
        match self {
            Builtin::ReadFile | Builtin::WriteFile | Builtin::HttpRequest => false,
            _ => true,
        }
    }

    /// Whether the host performs the built-in.
    pub fn is_host(&self) -> (r: bool)
        ensures
            r == is_host(*self),
    {
        match self {
            Builtin::Print | Builtin::Time | Builtin::GetInput | Builtin::ReadFile | Builtin::WriteFile
            | Builtin::HttpRequest => true,
            _ => false,
        }
    }
}

/// Which built-ins may run: a safe one by default, an unsafe one only when
/// allowed; the configuration may change either, and its last setting for a
/// built-in counts.
pub struct BuiltinPermissions {
    pub settings: Vec<(Builtin, bool)>,
}

/// The last setting made for `b`, if any.
pub open spec fn last_setting(s: Seq<(Builtin, bool)>, b: Builtin) -> Option<bool>
    decreases s.len(),
{
    if s.len() == 0 {
        None
    } else if s.last().0 == b {
        Some(s.last().1)
    } else {
        last_setting(s.drop_last(), b)
    }
}

impl BuiltinPermissions {
    pub open spec fn allows(&self, b: Builtin) -> bool {
        match last_setting(self.settings@, b) {
            Some(v) => v,
            None => builtin_safe(b),
        }
    }

    /// The defaults: safe built-ins allowed.
    pub fn new() -> (r: Self)
        ensures
            forall|b: Builtin| r.allows(b) == builtin_safe(b),
    {
        BuiltinPermissions { settings: Vec::new() }
    }

    pub fn is_allowed(&self, b: Builtin) -> (r: bool)
        ensures
            r == self.allows(b),
    {
        let mut i: usize = self.settings.len();
        assert(self.settings@.subrange(0, i as int) =~= self.settings@);
        while i > 0
            invariant
                i <= self.settings@.len(),
                last_setting(self.settings@, b) == last_setting(self.settings@.subrange(0, i as int), b),
            decreases i,
        {
            let ghost pre = self.settings@.subrange(0, i as int);
            assert(pre.drop_last() =~= self.settings@.subrange(0, i - 1));
            if self.settings[i - 1].0 == b {
                return self.settings[i - 1].1;
            }
            i = i - 1;
        }
        b.is_safe()
    }

    pub fn set(&mut self, b: Builtin, setting: bool)
        ensures
            final(self).allows(b) == setting,
            forall|c: Builtin| c != b ==> final(self).allows(c) == old(self).allows(c),
    {
        self.settings.push((b, setting));
        assert(self.settings@.drop_last() =~= old(self).settings@);
    }
}

} // verus!
