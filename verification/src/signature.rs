//! Signature help: which call the cursor is in, and the signature of the
//! function or function type that it calls.
use vstd::prelude::*;
use crate::hover::{function_signature, joined_types, push_joined_types};
use crate::parser::{bounded_value, parse_number};
use crate::symbols::{last_named, lookup_index, value_type_name, Function, Parameter, SymbolTable, TypeDef, TypeKind, ValueType};
use crate::text;
use crate::text::{char_index_at_byte, char_index_of_byte, chars_of, count_char, count_char_exec, decimal, ends_with, ends_with_str, find_last, find_last_exec, is_char_boundary, is_char_boundary_exec, opt_view, push_decimal, starts_with, string_from_chars, sub_chars, trim_end, trim_end_chars, trim_start, trim_start_chars, unicode_whitespace};
use crate::types::Position;
use crate::utils;
use crate::syntax;
use crate::syntax::{NodeKind, SyntaxNode};
use crate::parser;
use crate::parser::{doc_wf, Doc};
use crate::references::is_comment_exec;

verus! {

/// The kind of call that signature help is given for.
#[derive(Debug, Clone, Copy, PartialEq, Eq, Structural)]
pub enum CallType {
    /// call $func
    Direct,
    /// call_ref $type
    CallRef,
    /// return_call_ref $type
    ReturnCallRef,
}

/// A call found before the cursor: the callee's name or index, the text of
/// the arguments typed so far, and the kind of call.
pub struct CallInfo {
    pub name: String,
    pub arg_text: String,
    pub call_type: CallType,
}

/// Characters that end a callee name: whitespace and `(`.
pub open spec fn name_stop(c: char) -> bool {
    unicode_whitespace(c) || c == '('
}

/// Index of the first name stop at or after `i`, or the length of `s`.
pub open spec fn stop_index(s: Seq<char>, i: int) -> int
    decreases s.len() - i,
{
    if 0 <= i < s.len() && !name_stop(s[i]) {
        stop_index(s, i + 1)
    } else {
        i
    }
}

/// The name at the start of `s`: the text before the first whitespace or
/// `(`, if it is not empty.
pub open spec fn name_from_call(s: Seq<char>) -> Option<Seq<char>> {
    let e = stop_index(s, 0);
    if e > 0 {
        Some(s.take(e))
    } else {
        None
    }
}

proof fn lemma_stop_index(s: Seq<char>, i: int)
    requires
        0 <= i <= s.len(),
    ensures
        i <= stop_index(s, i) <= s.len(),
    decreases s.len() - i,
{
    if i < s.len() && !name_stop(s[i]) {
        lemma_stop_index(s, i + 1);
    }
}

fn name_from_call_chars(s: &[char]) -> (r: Option<Vec<char>>)
    ensures
        match name_from_call(s@) {
            Some(n) => r is Some && r->0@ == n,
            None => r is None,
        },
{
    let mut e: usize = 0;
    while e < s.len() && !(text::is_whitespace(s[e]) || s[e] == '(')
        invariant
            e <= s@.len(),
            stop_index(s@, 0) == stop_index(s@, e as int),
        decreases s@.len() - e,
    {
        e = e + 1;
    }
    if e > 0 {
        Some(sub_chars(s, 0, e))
    } else {
        None
    }
}

/// Extract the function/type name from text after a call keyword.
pub fn extract_name_from_call(after_call: &str) -> (r: Option<String>)
    ensures
        opt_view(r) == name_from_call(after_call@),
{
    let c = chars_of(after_call);
    match name_from_call_chars(c.as_slice()) {
        Some(n) => Some(string_from_chars(n.as_slice())),
        None => None,
    }
}

/// Scanning `s[..i]` backwards with `depth` unclosed `)`, the position of
/// the first `(` that no `)` after it closes.
pub open spec fn open_paren_before(s: Seq<char>, i: int, depth: nat) -> Option<int>
    decreases i,
{
    if i <= 0 || i > s.len() {
        None
    } else if s[i - 1] == ')' {
        open_paren_before(s, i - 1, depth + 1)
    } else if s[i - 1] == '(' {
        if depth == 0 {
            Some(i - 1)
        } else {
            open_paren_before(s, i - 1, (depth - 1) as nat)
        }
    } else {
        open_paren_before(s, i - 1, depth)
    }
}

/// The innermost `(` that is still open at the end of `s`.
pub open spec fn unmatched_paren(s: Seq<char>) -> Option<int> {
    open_paren_before(s, s.len() as int, 0)
}

proof fn lemma_open_paren_before(s: Seq<char>, i: int, depth: nat)
    requires
        0 <= i <= s.len(),
    ensures
        open_paren_before(s, i, depth) matches Some(p) ==> 0 <= p < i && s[p] == '(',
    decreases i,
{
    if i > 0 {
        if s[i - 1] == ')' {
            lemma_open_paren_before(s, i - 1, depth + 1);
        } else if s[i - 1] == '(' {
            if depth > 0 {
                lemma_open_paren_before(s, i - 1, (depth - 1) as nat);
            }
        } else {
            lemma_open_paren_before(s, i - 1, depth);
        }
    }
}

/// The name after the last occurrence of `kw` in `cp`, past whitespace.
pub open spec fn name_after(cp: Seq<char>, kw: Seq<char>) -> Option<Seq<char>> {
    match find_last(cp, kw) {
        Some(k) => name_from_call(trim_start(cp.skip(k + kw.len()))),
        None => None,
    }
}

/// The call that the text before an open parenthesis ends with: a
/// `return_call_ref`, else a `call_ref`, else a plain `call` that is not
/// part of a longer keyword, each with a callee name after it.
pub open spec fn call_match(cp: Seq<char>) -> Option<(Seq<char>, CallType)> {
    match name_after(cp, "return_call_ref "@) {
        Some(n) => Some((n, CallType::ReturnCallRef)),
        None => match name_after(cp, "call_ref "@) {
            Some(n) => Some((n, CallType::CallRef)),
            None => match find_last(cp, "call "@) {
                Some(k) => if !ends_with(cp.take(k), "return_"@) && !ends_with(cp.take(k), "_"@) {
                    match name_from_call(trim_start(cp.skip(k + 5))) {
                        Some(n) => Some((n, CallType::Direct)),
                        None => None,
                    }
                } else {
                    None
                },
                None => None,
            },
        },
    }
}

/// The text before the open parenthesis at character position `p`, where
/// `p` is taken as a byte offset into `s`, without trailing whitespace.
pub open spec fn call_pattern(s: Seq<char>, p: int) -> Seq<char> {
    trim_end(s.take(char_index_of_byte(s, p)))
}

/// The call that a line prefix is in: its callee, the argument text after
/// the open parenthesis (whose character position is used as a byte
/// offset), and the kind of call.
pub open spec fn find_call(s: Seq<char>) -> Option<(Seq<char>, Seq<char>, CallType)> {
    match unmatched_paren(s) {
        None => None,
        Some(p) => match call_match(call_pattern(s, p)) {
            Some(m) => Some((m.0, s.skip(char_index_of_byte(s, p + 1)), m.1)),
            None => None,
        },
    }
}

/// The inputs on which `find_function_call` slices at character
/// boundaries: the open parenthesis's character position, and the one
/// after it where a call is found, are byte offsets between characters.
pub open spec fn find_call_ok(s: Seq<char>) -> bool {
    match unmatched_paren(s) {
        None => true,
        Some(p) => is_char_boundary(s, p) && (call_match(call_pattern(s, p)) is Some ==> is_char_boundary(
            s,
            p + 1,
        )),
    }
}

fn name_after_exec(cp: &[char], kw: &str) -> (r: Option<Vec<char>>)
    ensures
        match name_after(cp@, kw@) {
            Some(n) => r is Some && r->0@ == n,
            None => r is None,
        },
{
    let kwc = chars_of(kw);
    let cl = cp.len();
    match find_last_exec(cp, kwc.as_slice()) {
        Some(k) => {
            proof {
                text::lemma_find_last_bound(cp@, kw@);
                assert(find_last(cp@, kw@) == Some(k as int));
                assert(text::occurs_at(cp@, kw@, k as int));
            }
            let rest = sub_chars(cp, k + kwc.len(), cp.len());
            assert(rest@ =~= cp@.skip(k + kw@.len()));
            let t = trim_start_chars(rest.as_slice());
            name_from_call_chars(t.as_slice())
        },
        None => None,
    }
}

fn call_match_exec(cp: &[char]) -> (r: Option<(Vec<char>, CallType)>)
    ensures
        match call_match(cp@) {
            Some(m) => match r {
                Some(x) => x.0@ == m.0 && x.1 == m.1,
                None => false,
            },
            None => r is None,
        },
{
    if let Some(n) = name_after_exec(cp, "return_call_ref ") {
        return Some((n, CallType::ReturnCallRef));
    }
    if let Some(n) = name_after_exec(cp, "call_ref ") {
        return Some((n, CallType::CallRef));
    }
    let kwc = chars_of("call ");
    let cl = cp.len();
    match find_last_exec(cp, kwc.as_slice()) {
        Some(k) => {
            proof {
                reveal_strlit("call ");
                text::lemma_find_last_bound(cp@, "call "@);
                assert(find_last(cp@, "call "@) == Some(k as int));
                assert(text::occurs_at(cp@, "call "@, k as int));
            }
            let before = sub_chars(cp, 0, k);
            assert(before@ =~= cp@.take(k as int));
            if !ends_with_str(before.as_slice(), "return_") && !ends_with_str(before.as_slice(), "_") {
                let rest = sub_chars(cp, k + 5, cp.len());
                assert(rest@ =~= cp@.skip(k + 5));
                let t = trim_start_chars(rest.as_slice());
                match name_from_call_chars(t.as_slice()) {
                    Some(n) => Some((n, CallType::Direct)),
                    None => None,
                }
            } else {
                None
            }
        },
        None => None,
    }
}

/// Whether `find_function_call` can read this line prefix: whether the
/// offsets at which it slices fall between characters (`find_call_ok`).
pub fn find_call_applies(line_prefix: &str) -> (b: bool)
    ensures
        b == find_call_ok(line_prefix@),
{
    let chars = chars_of(line_prefix);
    let n = chars.len();
    let mut depth: usize = 0;
    let mut i: usize = n;
    let mut found: Option<usize> = None;
    while i > 0
        invariant
            i <= n == chars@.len(),
            chars@ == line_prefix@,
            depth <= n - i,
            found is None ==> unmatched_paren(chars@) == open_paren_before(chars@, i as int, depth as nat),
            found matches Some(p) ==> unmatched_paren(chars@) == Some(p as int) && i == 0,
        decreases i,
    {
        let c = chars[i - 1];
        if c == ')' {
            depth = depth + 1;
            i = i - 1;
        } else if c == '(' {
            if depth == 0 {
                found = Some(i - 1);
                i = 0;
            } else {
                depth = depth - 1;
                i = i - 1;
            }
        } else {
            i = i - 1;
        }
    }
    let p = match found {
        Some(p) => p,
        None => return true,
    };
    proof {
        lemma_open_paren_before(chars@, n as int, 0);
    }
    if !is_char_boundary_exec(chars.as_slice(), p) {
        return false;
    }
    let ci = char_index_at_byte(chars.as_slice(), p);
    let before = sub_chars(chars.as_slice(), 0, ci);
    assert(before@ =~= line_prefix@.take(char_index_of_byte(line_prefix@, p as int)));
    let cp = trim_end_chars(before.as_slice());
    match call_match_exec(cp.as_slice()) {
        Some(_) => is_char_boundary_exec(chars.as_slice(), p + 1),
        None => true,
    }
}

/// Find function call using string-based analysis (fallback for incomplete code).
pub fn find_function_call(line_prefix: &str) -> (r: Option<CallInfo>)
    requires
        find_call_ok(line_prefix@),
    ensures
        match find_call(line_prefix@) {
            Some(c) => r is Some && r->0.name@ == c.0 && r->0.arg_text@ == c.1 && r->0.call_type
                == c.2,
            None => r is None,
        },
{
    let chars = chars_of(line_prefix);
    let n = chars.len();
    let mut depth: usize = 0;
    let mut i: usize = n;
    let mut found: Option<usize> = None;
    while i > 0
        invariant
            i <= n == chars@.len(),
            chars@ == line_prefix@,
            depth <= n - i,
            found is None ==> unmatched_paren(chars@) == open_paren_before(chars@, i as int, depth as nat),
            found matches Some(p) ==> unmatched_paren(chars@) == Some(p as int) && i == 0,
        decreases i,
    {
        let c = chars[i - 1];
        if c == ')' {
            depth = depth + 1;
            i = i - 1;
        } else if c == '(' {
            if depth == 0 {
                found = Some(i - 1);
                i = 0;
            } else {
                depth = depth - 1;
                i = i - 1;
            }
        } else {
            i = i - 1;
        }
    }
    let p = match found {
        Some(p) => p,
        None => return None,
    };
    proof {
        lemma_open_paren_before(chars@, n as int, 0);
    }
    let ci = char_index_at_byte(chars.as_slice(), p);
    let before = sub_chars(chars.as_slice(), 0, ci);
    assert(before@ =~= line_prefix@.take(char_index_of_byte(line_prefix@, p as int)));
    let cp = trim_end_chars(before.as_slice());
    match call_match_exec(cp.as_slice()) {
        Some((name, call_type)) => {
            let ai = char_index_at_byte(chars.as_slice(), p + 1);
            let args = sub_chars(chars.as_slice(), ai, n);
            assert(args@ =~= line_prefix@.skip(char_index_of_byte(line_prefix@, p + 1)));
            Some(
                CallInfo {
                    name: string_from_chars(name.as_slice()),
                    arg_text: string_from_chars(args.as_slice()),
                    call_type,
                },
            )
        },
        None => None,
    }
}

} // verus!

verus! {

/// Protocol-independent parameter information.
pub struct ParameterInfo {
    pub label: String,
    pub documentation: Option<String>,
}

/// Protocol-independent signature information.
pub struct SignatureInfo {
    pub label: String,
    pub documentation: Option<String>,
    pub parameters: Vec<ParameterInfo>,
    pub active_parameter: u32,
}

/// Protocol-independent signature help result.
pub struct SignatureHelpInfo {
    pub signature: SignatureInfo,
}

/// The mathematical content of a `ParameterInfo`.
pub struct ParameterInfoModel {
    pub label: Seq<char>,
    pub documentation: Option<Seq<char>>,
}

/// The mathematical content of a `SignatureInfo`.
pub struct SignatureModel {
    pub label: Seq<char>,
    pub documentation: Option<Seq<char>>,
    pub parameters: Seq<ParameterInfoModel>,
    pub active_parameter: u32,
}

impl DeepView for ParameterInfo {
    type V = ParameterInfoModel;

    open spec fn deep_view(&self) -> ParameterInfoModel {
        ParameterInfoModel { label: self.label@, documentation: opt_view(self.documentation) }
    }
}

impl DeepView for SignatureInfo {
    type V = SignatureModel;

    open spec fn deep_view(&self) -> SignatureModel {
        SignatureModel {
            label: self.label@,
            documentation: opt_view(self.documentation),
            parameters: self.parameters.deep_view(),
            active_parameter: self.active_parameter,
        }
    }
}

impl DeepView for SignatureHelpInfo {
    type V = SignatureModel;

    open spec fn deep_view(&self) -> SignatureModel {
        self.signature.deep_view()
    }
}

/// `n` as a `u32` with `as`: its low 32 bits.
pub open spec fn low_u32(n: nat) -> u32 {
    (n % 0x1_0000_0000) as u32
}

/// The active parameter: the number of commas typed, at most `count`, both
/// taken as `u32`.
pub open spec fn active_param(arg_text: Seq<char>, count: nat) -> u32 {
    let a = low_u32(count_char(arg_text, ','));
    let c = low_u32(count);
    if a < c {
        a
    } else {
        c
    }
}

fn active_param_exec(arg_text: &String, count: usize) -> (r: u32)
    ensures
        r == active_param(arg_text@, count as nat),
{
    let c = chars_of(arg_text.as_str());
    let commas = count_char_exec(c.as_slice(), ',');
    let a: u32 = ((commas as u64) % 0x1_0000_0000u64) as u32;
    let m: u32 = ((count as u64) % 0x1_0000_0000u64) as u32;
    if a < m {
        a
    } else {
        m
    }
}

/// The function that a direct call names.
pub open spec fn callee_function(sym: SymbolTable, name: Seq<char>) -> Option<Function> {
    if starts_with(name, "$"@) {
        match last_named(sym.functions@, name) {
            Some(i) => Some(sym.functions@[i]),
            None => None,
        }
    } else {
        match bounded_value(name, 10, usize::MAX as nat) {
            Some(i) => lookup_index(sym.functions@, i as int),
            None => None,
        }
    }
}

/// The type that a `call_ref` names.
pub open spec fn callee_type(sym: SymbolTable, name: Seq<char>) -> Option<TypeDef> {
    if starts_with(name, "$"@) {
        match last_named(sym.types@, name) {
            Some(i) => Some(sym.types@[i]),
            None => None,
        }
    } else {
        match bounded_value(name, 10, usize::MAX as nat) {
            Some(i) => lookup_index(sym.types@, i as int),
            None => None,
        }
    }
}

/// `($name type)` for a named parameter, else `(param type)`.
pub open spec fn direct_param_label(p: Parameter) -> Seq<char> {
    match p.name {
        Some(n) => "("@ + n@ + " "@ + value_type_name(p.param_type) + ")"@,
        None => "(param "@ + value_type_name(p.param_type) + ")"@,
    }
}

pub open spec fn plain_param(label: Seq<char>) -> ParameterInfoModel {
    ParameterInfoModel { label, documentation: None }
}

/// The signature help for a direct call of `f`.
pub open spec fn direct_signature(f: Function, arg_text: Seq<char>) -> SignatureModel {
    SignatureModel {
        label: function_signature(f),
        documentation: opt_view(f.doc_comment),
        parameters: f.parameters@.map_values(|p: Parameter| plain_param(direct_param_label(p))),
        active_parameter: active_param(arg_text, f.parameters@.len()),
    }
}

fn starts_with_dollar(s: &String) -> (b: bool)
    ensures
        b == starts_with(s@, "$"@),
{
    let c = chars_of(s.as_str());
    proof {
        reveal_strlit("$");
        if c@.len() > 0 {
            assert(starts_with(s@, "$"@) == (c@[0] == '$')) by {
                if c@[0] == '$' {
                    assert(s@.take(1) =~= "$"@);
                } else {
                    assert(s@.take(1)[0] != "$"@[0]);
                }
            }
        }
    }
    c.len() > 0 && c[0] == '$'
}

fn callee_number(s: &String) -> (r: Option<usize>)
    ensures
        match bounded_value(s@, 10, usize::MAX as nat) {
            Some(v) => r == Some(v as usize),
            None => r is None,
        },
{
    let c = chars_of(s.as_str());
    match parse_number(c.as_slice(), 10, usize::MAX as u64) {
        Some(v) => Some(v as usize),
        None => None,
    }
}

fn find_callee_function<'a>(symbols: &'a SymbolTable, name: &String) -> (r: Option<&'a Function>)
    ensures
        match callee_function(*symbols, name@) {
            Some(f) => r is Some && *r->0 == f,
            None => r is None,
        },
{
    if starts_with_dollar(name) {
        symbols.get_function_by_name(name.as_str())
    } else {
        match callee_number(name) {
            Some(i) => symbols.get_function_by_index(i),
            None => None,
        }
    }
}

fn find_callee_type<'a>(symbols: &'a SymbolTable, name: &String) -> (r: Option<&'a TypeDef>)
    ensures
        match callee_type(*symbols, name@) {
            Some(t) => r is Some && *r->0 == t,
            None => r is None,
        },
{
    if starts_with_dollar(name) {
        symbols.get_type_by_name(name.as_str())
    } else {
        match callee_number(name) {
            Some(i) => symbols.get_type_by_index(i),
            None => None,
        }
    }
}

/// Build signature help for a direct function call (call $func).
pub fn provide_direct_call_signature_core(symbols: &SymbolTable, call_info: &CallInfo) -> (r: Option<SignatureHelpInfo>)
    ensures
        match callee_function(*symbols, call_info.name@) {
            Some(f) => r is Some && r->0.deep_view() == direct_signature(f, call_info.arg_text@),
            None => r is None,
        },
{
    let func = match find_callee_function(symbols, &call_info.name) {
        Some(f) => f,
        None => return None,
    };
    let label = crate::hover::format_function_signature(func);
    let mut parameters: Vec<ParameterInfo> = Vec::new();
    let mut i: usize = 0;
    while i < func.parameters.len()
        invariant
            i <= func.parameters@.len(),
            parameters.deep_view() =~= func.parameters@.map_values(
                |p: Parameter| plain_param(direct_param_label(p)),
            ).take(i as int),
        decreases func.parameters@.len() - i,
    {
        let p = &func.parameters[i];
        let ty = p.param_type.to_str();
        let l = match &p.name {
            Some(n) => {
                let mut l = "(".to_owned();
                l.append(n.as_str());
                l.append(" ");
                l.append(ty.as_str());
                l.append(")");
                l
            },
            None => {
                let mut l = "(param ".to_owned();
                l.append(ty.as_str());
                l.append(")");
                l
            },
        };
        crate::symbols::push_dv(&mut parameters, ParameterInfo { label: l, documentation: None });
        i = i + 1;
    }
    assert(func.parameters@.map_values(|p: Parameter| plain_param(direct_param_label(p))).take(
        i as int,
    ) =~= func.parameters@.map_values(|p: Parameter| plain_param(direct_param_label(p))));
    let active = active_param_exec(&call_info.arg_text, func.parameters.len());
    let documentation = text::clone_opt_string(&func.doc_comment);
    Some(
        SignatureHelpInfo {
            signature: SignatureInfo { label, documentation, parameters, active_parameter: active },
        },
    )
}

/// `call_ref`, or `return_call_ref` for a tail call.
pub open spec fn call_kind_text(t: CallType) -> Seq<char> {
    match t {
        CallType::ReturnCallRef => "return_call_ref"@,
        _ => "call_ref"@,
    }
}

/// The name of a type, or its index.
pub open spec fn type_display_name(t: TypeDef) -> Seq<char> {
    match t.name {
        Some(n) => n@,
        None => decimal(t.index as nat),
    }
}

/// The text of a list of types, or `none`.
pub open spec fn types_or_none(vs: Seq<ValueType>) -> Seq<char> {
    if joined_types(vs).len() == 0 {
        "none"@
    } else {
        joined_types(vs)
    }
}

/// `(param{i} type)` for the `i`-th parameter type.
pub open spec fn ref_param_label(i: int, ty: ValueType) -> Seq<char> {
    "(param"@ + decimal(i as nat) + " "@ + value_type_name(ty) + ")"@
}

/// The parameters of a `call_ref` to a function type: the type's
/// parameters, then the function reference.
pub open spec fn ref_params(params: Seq<ValueType>) -> Seq<ParameterInfoModel> {
    Seq::new(params.len(), |i: int| plain_param(ref_param_label(i, params[i]))).push(
        ParameterInfoModel { label: "(funcref)"@, documentation: Some("Function reference to call"@) },
    )
}

/// The signature help for a `call_ref` or `return_call_ref` to type `t`
/// with the given function type.
pub open spec fn call_ref_signature(
    t: TypeDef,
    params: Seq<ValueType>,
    results: Seq<ValueType>,
    call_type: CallType,
    arg_text: Seq<char>,
) -> SignatureModel {
    let tn = type_display_name(t);
    SignatureModel {
        label: "("@ + call_kind_text(call_type) + " "@ + tn + ") (param "@ + types_or_none(params)
            + ") (result "@ + types_or_none(results) + ") + funcref"@,
        documentation: Some(
            "Indirect call via typed function reference. The last argument must be a function reference of type "@
                + tn + "."@,
        ),
        parameters: ref_params(params),
        active_parameter: active_param(arg_text, params.len() + 1),
    }
}

fn push_types_or_none(s: &mut String, vs: &Vec<ValueType>)
    ensures
        final(s)@ == old(s)@ + types_or_none(vs@),
{
    let mut t = String::new();
    push_joined_types(&mut t, vs);
    if t.as_str().is_empty() {
        s.append("none");
    } else {
        s.append(t.as_str());
    }
}

/// Build signature help for an indirect call via typed function reference (call_ref $type).
pub fn provide_call_ref_signature_core(symbols: &SymbolTable, call_info: &CallInfo) -> (r: Option<SignatureHelpInfo>)
    ensures
        match callee_type(*symbols, call_info.name@) {
            Some(t) => match t.kind {
                TypeKind::Func { params, results } => r is Some && r->0.deep_view() == call_ref_signature(
                    t,
                    params@,
                    results@,
                    call_info.call_type,
                    call_info.arg_text@,
                ),
                _ => r is None,
            },
            None => r is None,
        },
{
    let type_def = match find_callee_type(symbols, &call_info.name) {
        Some(t) => t,
        None => return None,
    };
    let (params, results) = match &type_def.kind {
        TypeKind::Func { params, results } => (params, results),
        _ => return None,
    };
    let call_kind = match call_info.call_type {
        CallType::CallRef => "call_ref",
        CallType::ReturnCallRef => "return_call_ref",
        _ => "call_ref",
    };
    let tn_text = match &type_def.name {
        Some(n) => n.clone(),
        None => text::decimal_string(type_def.index as u64),
    };
    let mut label = "(".to_owned();
    label.append(call_kind);
    label.append(" ");
    label.append(tn_text.as_str());
    label.append(") (param ");
    push_types_or_none(&mut label, params);
    label.append(") (result ");
    push_types_or_none(&mut label, results);
    label.append(") + funcref");
    let mut parameters: Vec<ParameterInfo> = Vec::new();
    let mut i: usize = 0;
    while i < params.len()
        invariant
            i <= params@.len(),
            parameters.deep_view() =~= Seq::new(
                i as nat,
                |k: int| plain_param(ref_param_label(k, params@[k])),
            ),
        decreases params@.len() - i,
    {
        let mut l = "(param".to_owned();
        push_decimal(&mut l, i as u64);
        l.append(" ");
        l.append(params[i].to_str().as_str());
        l.append(")");
        crate::symbols::push_dv(&mut parameters, ParameterInfo { label: l, documentation: None });
        i = i + 1;
    }
    crate::symbols::push_dv(
        &mut parameters,
        ParameterInfo {
            label: "(funcref)".to_owned(),
            documentation: Some("Function reference to call".to_owned()),
        },
    );
    let active = active_param_exec(&call_info.arg_text, parameters.len());
    let mut doc = "Indirect call via typed function reference. The last argument must be a function reference of type ".to_owned();
    doc.append(tn_text.as_str());
    doc.append(".");
    Some(
        SignatureHelpInfo {
            signature: SignatureInfo {
                label,
                documentation: Some(doc),
                parameters,
                active_parameter: active,
            },
        },
    )
}

} // verus!

verus! {

/// The signature help that the core functions give for a call, if any.
pub open spec fn call_help(sym: SymbolTable, name: Seq<char>, arg_text: Seq<char>, call_type: CallType) -> Option<
    SignatureModel,
> {
    match call_type {
        CallType::Direct => match callee_function(sym, name) {
            Some(f) => Some(direct_signature(f, arg_text)),
            None => None,
        },
        _ => match callee_type(sym, name) {
            Some(t) => match t.kind {
                TypeKind::Func { params, results } => Some(
                    call_ref_signature(t, params@, results@, call_type, arg_text),
                ),
                _ => None,
            },
            None => None,
        },
    }
}

/// Signature help for a call: a direct call by its function, a `call_ref`
/// or `return_call_ref` by its function type.
pub fn signature_help_for_call(symbols: &SymbolTable, call_info: &CallInfo) -> (r: Option<SignatureHelpInfo>)
    ensures
        match call_help(*symbols, call_info.name@, call_info.arg_text@, call_info.call_type) {
            Some(m) => r is Some && r->0.deep_view() == m,
            None => r is None,
        },
{
    match call_info.call_type {
        CallType::Direct => provide_direct_call_signature_core(symbols, call_info),
        CallType::CallRef | CallType::ReturnCallRef => provide_call_ref_signature_core(symbols, call_info),
    }
}

} // verus!

verus! {

/// The kind of call that an instruction's text makes, if any.
pub open spec fn text_call_type(x: Seq<char>) -> Option<CallType> {
    if text::contains(x, "return_call_ref "@) {
        Some(CallType::ReturnCallRef)
    } else if text::contains(x, "call_ref "@) {
        Some(CallType::CallRef)
    } else if text::contains(x, "call "@) && !text::contains(x, "call_"@) {
        Some(CallType::Direct)
    } else {
        None
    }
}

/// The first identifier or number among the children of list `l`, from
/// node `i`.
pub open spec fn first_ref(t: Seq<SyntaxNode>, l: int, i: int) -> Option<int>
    decreases t.len() - i,
{
    if i < 0 || i >= t.len() || l < 0 || l >= t.len() || i >= t[l].last {
        None
    } else if t[i].parent == l && (t[i].kind == NodeKind::Identifier || t[i].kind == NodeKind::Number) {
        Some(i)
    } else {
        first_ref(t, l, i + 1)
    }
}

/// Scans the children of `p` from node `i` for the callee and the further
/// identifiers and numbers: the first one names the callee (or, while none
/// has, the first one inside a `(type ...)` child), each later one counts.
/// A flat instruction's operands end at the next keyword or list.
pub open spec fn call_refs(
    s: Seq<char>,
    t: Seq<SyntaxNode>,
    p: int,
    i: int,
    flat: bool,
    name: Option<int>,
    count: nat,
) -> (Option<int>, nat)
    decreases t.len() - i,
{
    if i < 0 || i >= t.len() || p < 0 || p >= t.len() || i >= t[p].last {
        (name, count)
    } else if t[i].parent == p && !syntax::is_comment(t[i].kind) {
        if flat && (t[i].kind == NodeKind::Keyword || !syntax::is_atom(t[i])) {
            (name, count)
        } else if t[i].kind == NodeKind::Identifier || t[i].kind == NodeKind::Number {
            if name is None {
                call_refs(s, t, p, i + 1, flat, Some(i), count)
            } else {
                call_refs(s, t, p, i + 1, flat, name, count + 1)
            }
        } else if name is None && syntax::head_is(s, t, i, "type"@) {
            call_refs(s, t, p, i + 1, flat, first_ref(t, i, i + 1), count)
        } else {
            call_refs(s, t, p, i + 1, flat, name, count)
        }
    } else {
        call_refs(s, t, p, i + 1, flat, name, count)
    }
}

/// `n - 1` commas, or none when `n` is 0: argument text that puts the
/// active parameter at the `n`-th further operand.
pub open spec fn commas(n: nat) -> Seq<char> {
    if n > 0 {
        Seq::new((n - 1) as nat, |i: int| ',')
    } else {
        Seq::empty()
    }
}

/// The call that an instruction with text `x` and scanned references
/// `refs` makes, if it is a call with a callee.
pub open spec fn ref_call(s: Seq<char>, t: Seq<SyntaxNode>, x: Seq<char>, refs: (Option<int>, nat)) -> Option<
    (Seq<char>, Seq<char>, CallType),
> {
    match (text_call_type(x), refs.0) {
        (Some(ct), Some(n)) => Some((syntax::text_of(s, t[n]), commas(refs.1), ct)),
        _ => None,
    }
}

/// The call made by the flat instruction that node `k` belongs to.
pub open spec fn flat_call(s: Seq<char>, t: Seq<SyntaxNode>, k: int) -> Option<(Seq<char>, Seq<char>, CallType)> {
    let h = if t[k].kind == NodeKind::Keyword {
        Some(k as usize)
    } else {
        crate::semantic_tokens::prev_keyword(t, k)
    };
    match h {
        Some(h) => {
            let p = t[h as int].parent as int;
            if t[p].kind == NodeKind::List && crate::references::head_node(t, p) == Some(h as int) {
                None
            } else {
                let x = s.subrange(
                    t[h as int].start as int,
                    crate::hover_core::operands_end(t, p, h + 1, t[h as int].end as int),
                );
                ref_call(s, t, x, call_refs(s, t, p, h + 1, true, None, 0))
            }
        },
        None => None,
    }
}

/// The call made by the folded instruction that list `l` holds.
pub open spec fn list_call(s: Seq<char>, t: Seq<SyntaxNode>, l: int) -> Option<(Seq<char>, Seq<char>, CallType)> {
    ref_call(s, t, crate::hover_core::inner_text(s, t[l]), call_refs(s, t, l, l + 1, false, None, 0))
}

/// The call made by list `l` or the nearest enclosing list that makes one.
pub open spec fn enclosing_call(s: Seq<char>, t: Seq<SyntaxNode>, l: int) -> Option<(Seq<char>, Seq<char>, CallType)>
    decreases l,
{
    if l <= 0 || l >= t.len() {
        None
    } else if t[l].kind == NodeKind::List && list_call(s, t, l) is Some {
        list_call(s, t, l)
    } else if t[l].parent < l {
        enclosing_call(s, t, t[l].parent as int)
    } else {
        None
    }
}

/// The call that the syntax around byte `b` shows: that of the flat
/// instruction under the cursor, else of the nearest enclosing list.
pub open spec fn tree_call(s: Seq<char>, t: Seq<SyntaxNode>, b: int) -> Option<(Seq<char>, Seq<char>, CallType)> {
    match crate::references::cursor_node(s, t, b) {
        Some(k) => {
            let f = if k > 0 && t[k].kind != NodeKind::List {
                flat_call(s, t, k)
            } else {
                None
            };
            if f is Some {
                f
            } else if t[k].kind == NodeKind::List {
                enclosing_call(s, t, k)
            } else {
                enclosing_call(s, t, t[k].parent as int)
            }
        },
        None => None,
    }
}

/// The UTF-16 code units of a character.
pub open spec fn utf16_width(c: char) -> nat {
    if (c as u32) < 0x10000 {
        1
    } else {
        2
    }
}

/// The number of characters of `l`, from index `i` with `acc` UTF-16 units
/// before it, that come before UTF-16 offset `u`: the first character
/// boundary at or after `u`, or the whole line.
pub open spec fn utf16_chars(l: Seq<char>, u: int, i: int, acc: int) -> int
    decreases l.len() - i,
{
    if i < 0 || i >= l.len() || acc >= u {
        i
    } else {
        utf16_chars(l, u, i + 1, acc + utf16_width(l[i]))
    }
}

/// The text of line `l` before UTF-16 column `u`.
pub open spec fn utf16_prefix(l: Seq<char>, u: u32) -> Seq<char> {
    l.take(utf16_chars(l, u as int, 0, 0))
}

/// The call at `pos`: the one the syntax shows, else the one that the text
/// of the line before the cursor opens.
pub open spec fn call_at(s: Seq<char>, pos: Position) -> Option<(Seq<char>, Seq<char>, CallType)> {
    let tc = tree_call(s, syntax::tree_of(s), utils::position_to_byte_spec(s, pos));
    if tc is Some {
        tc
    } else {
        match utils::line_at(s, pos.line as int) {
            Some(l) => find_call(utf16_prefix(l, pos.character)),
            None => None,
        }
    }
}

/// The signature help at `pos`: that of the call there, if the callee is
/// known.
pub open spec fn signature_help(s: Seq<char>, sym: SymbolTable, pos: Position) -> Option<SignatureModel> {
    match call_at(s, pos) {
        Some(c) => call_help(sym, c.0, c.1, c.2),
        None => None,
    }
}

/// The inputs on which signature help is defined: where the syntax shows
/// no call, the line's text before the cursor can be read for one.
pub open spec fn signature_help_ok(s: Seq<char>, pos: Position) -> bool {
    tree_call(s, syntax::tree_of(s), utils::position_to_byte_spec(s, pos)) is None ==> match utils::line_at(
        s,
        pos.line as int,
    ) {
        Some(l) => find_call_ok(utf16_prefix(l, pos.character)),
        None => true,
    }
}

} // verus!

verus! {

/// An index as an optional spec integer.
pub open spec fn opt_int(o: Option<usize>) -> Option<int> {
    match o {
        Some(n) => Some(n as int),
        None => None,
    }
}

/// The call of a `CallInfo`.
pub open spec fn call_view(c: CallInfo) -> (Seq<char>, Seq<char>, CallType) {
    (c.name@, c.arg_text@, c.call_type)
}

fn text_call_type_exec(x: &[char]) -> (r: Option<CallType>)
    ensures
        r == text_call_type(x@),
{
    if text::contains_str(x, "return_call_ref ") {
        Some(CallType::ReturnCallRef)
    } else if text::contains_str(x, "call_ref ") {
        Some(CallType::CallRef)
    } else if text::contains_str(x, "call ") && !text::contains_str(x, "call_") {
        Some(CallType::Direct)
    } else {
        None
    }
}

fn first_ref_exec(d: &Doc, l: usize, i: usize) -> (r: Option<usize>)
    requires
        doc_wf(d),
        l < d.tree@.len(),
    ensures
        opt_int(r) == first_ref(d.tree@, l as int, i as int),
        r matches Some(n) ==> n < d.tree@.len(),
{
    let n = d.tree.len();
    proof {
        parser::lemma_node_wf(d, l as int);
    }
    let last = d.tree[l].last;
    let mut j = i;
    while j < last
        invariant
            doc_wf(d),
            n == d.tree@.len(),
            l < n,
            last == d.tree@[l as int].last,
            last <= n,
            i <= j,
            first_ref(d.tree@, l as int, i as int) == first_ref(d.tree@, l as int, j as int),
        decreases last - j,
    {
        let x = d.tree[j];
        if x.parent == l && (x.kind == NodeKind::Identifier || x.kind == NodeKind::Number) {
            return Some(j);
        }
        j = j + 1;
    }
    None
}

fn call_refs_exec(d: &Doc, p: usize, i: usize, flat: bool) -> (r: (Option<usize>, usize))
    requires
        doc_wf(d),
        p < d.tree@.len(),
    ensures
        (opt_int(r.0), r.1 as nat) == call_refs(d.chars@, d.tree@, p as int, i as int, flat, None, 0),
        r.0 matches Some(n) ==> n < d.tree@.len(),
{
    let n = d.tree.len();
    proof {
        parser::lemma_node_wf(d, p as int);
    }
    let last = d.tree[p].last;
    let mut j = i;
    let mut name: Option<usize> = None;
    let mut count: usize = 0;
    while j < last
        invariant
            doc_wf(d),
            n == d.tree@.len(),
            p < n,
            last == d.tree@[p as int].last,
            last <= n,
            i <= j,
            count <= j,
            name matches Some(m) ==> m < n,
            call_refs(d.chars@, d.tree@, p as int, i as int, flat, None, 0) == call_refs(
                d.chars@,
                d.tree@,
                p as int,
                j as int,
                flat,
                opt_int(name),
                count as nat,
            ),
        decreases last - j,
    {
        let x = d.tree[j];
        if x.parent == p && !is_comment_exec(x.kind) {
            if flat && (x.kind == NodeKind::Keyword || x.kind == NodeKind::Root || x.kind == NodeKind::List) {
                return (name, count);
            } else if x.kind == NodeKind::Identifier || x.kind == NodeKind::Number {
                if name.is_none() {
                    name = Some(j);
                } else {
                    count = count + 1;
                }
            } else if name.is_none() && parser::head_is_exec(d, j, "type") {
                name = first_ref_exec(d, j, j + 1);
            }
        }
        j = j + 1;
    }
    (name, count)
}

fn commas_exec(n: usize) -> (r: String)
    ensures
        r@ == commas(n as nat),
{
    let mut s = String::new();
    if n > 0 {
        let mut k: usize = 0;
        while k < n - 1
            invariant
                k <= n - 1,
                s@ == Seq::new(k as nat, |i: int| ','),
            decreases n - 1 - k,
        {
            text::push_char(&mut s, ',');
            k = k + 1;
            assert(s@ =~= Seq::new(k as nat, |i: int| ','));
        }
    } else {
        assert(s@ =~= Seq::<char>::empty());
    }
    s
}

fn ref_call_exec(d: &Doc, x: &[char], refs: (Option<usize>, usize)) -> (r: Option<CallInfo>)
    requires
        doc_wf(d),
        refs.0 matches Some(n) ==> n < d.tree@.len(),
    ensures
        match ref_call(d.chars@, d.tree@, x@, (opt_int(refs.0), refs.1 as nat)) {
            Some(c) => r is Some && call_view(r->0) == c,
            None => r is None,
        },
{
    match (text_call_type_exec(x), refs.0) {
        (Some(ct), Some(n)) => Some(
            CallInfo { name: parser::node_string(d, n), arg_text: commas_exec(refs.1), call_type: ct },
        ),
        _ => None,
    }
}

fn flat_call_exec(d: &Doc, k: usize) -> (r: Option<CallInfo>)
    requires
        doc_wf(d),
        0 < k < d.tree@.len(),
    ensures
        match flat_call(d.chars@, d.tree@, k as int) {
            Some(c) => r is Some && call_view(r->0) == c,
            None => r is None,
        },
{
    let _n = d.tree.len();
    proof {
        parser::lemma_node_wf(d, k as int);
    }
    let h = if d.tree[k].kind == NodeKind::Keyword {
        k
    } else {
        match crate::semantic_tokens::prev_from_exec(d, d.tree[k].parent, k, true) {
            Some(h) => h,
            None => return None,
        }
    };
    proof {
        parser::lemma_node_wf(d, h as int);
        crate::semantic_tokens::lemma_prev_from(d.tree@, d.tree@[k as int].parent as int, k - 1, true);
    }
    let p = d.tree[h].parent;
    if d.tree[p].kind == NodeKind::List {
        match crate::references::next_child_exec(d, p, p + 1) {
            Some(x) => {
                if x == h {
                    return None;
                }
            },
            None => {},
        }
    }
    let start = d.tree[h].start;
    let hend = d.tree[h].end;
    let e = crate::hover_core::operands_end_exec(d, p, h + 1, hend);
    let _m = d.pos.len();
    proof {
        let s = d.chars@;
        let t = d.tree@;
        syntax::lemma_tree_atoms_ordered(s);
        assert(syntax::is_atom(t[h as int]));
        assert forall|j: int| h + 1 <= j < t.len() && syntax::is_atom(#[trigger] t[j]) implies hend <= t[j].end
            <= s.len() by {
            assert(t[h as int].end <= t[j].start);
        }
        crate::hover_core::lemma_operands_end_bounds(t, p as int, h + 1, hend as int, hend as int, s.len() as int);
    }
    let x = text::sub_chars(d.chars.as_slice(), start, e);
    let refs = call_refs_exec(d, p, h + 1, true);
    ref_call_exec(d, x.as_slice(), refs)
}

fn list_call_exec(d: &Doc, l: usize) -> (r: Option<CallInfo>)
    requires
        doc_wf(d),
        l < d.tree@.len(),
    ensures
        match list_call(d.chars@, d.tree@, l as int) {
            Some(c) => r is Some && call_view(r->0) == c,
            None => r is None,
        },
{
    let x = parser::node_chars(d, l);
    let inner = if x.len() > 0 {
        text::sub_chars(x.as_slice(), 1, x.len())
    } else {
        x
    };
    let refs = call_refs_exec(d, l, l + 1, false);
    ref_call_exec(d, inner.as_slice(), refs)
}

fn enclosing_call_exec(d: &Doc, l: usize) -> (r: Option<CallInfo>)
    requires
        doc_wf(d),
        l < d.tree@.len(),
    ensures
        match enclosing_call(d.chars@, d.tree@, l as int) {
            Some(c) => r is Some && call_view(r->0) == c,
            None => r is None,
        },
{
    let mut c = l;
    while c > 0
        invariant
            doc_wf(d),
            c < d.tree@.len(),
            enclosing_call(d.chars@, d.tree@, l as int) == enclosing_call(d.chars@, d.tree@, c as int),
        decreases c,
    {
        proof {
            parser::lemma_node_wf(d, c as int);
        }
        if d.tree[c].kind == NodeKind::List {
            let r = list_call_exec(d, c);
            if r.is_some() {
                return r;
            }
        }
        let p = d.tree[c].parent;
        if p < c {
            c = p;
        } else {
            return None;
        }
    }
    None
}

fn tree_call_exec(d: &Doc, b: usize) -> (r: Option<CallInfo>)
    requires
        doc_wf(d),
    ensures
        match tree_call(d.chars@, d.tree@, b as int) {
            Some(c) => r is Some && call_view(r->0) == c,
            None => r is None,
        },
{
    match crate::references::cursor_node_exec(d, b) {
        Some(k) => {
            proof {
                parser::lemma_node_wf(d, k as int);
            }
            let n = d.tree[k];
            if k > 0 && n.kind != NodeKind::List {
                let f = flat_call_exec(d, k);
                if f.is_some() {
                    return f;
                }
            }
            if n.kind == NodeKind::List {
                enclosing_call_exec(d, k)
            } else {
                enclosing_call_exec(d, n.parent)
            }
        },
        None => None,
    }
}

/// The call that the syntax around the cursor shows (see `tree_call`).
pub fn find_function_call_ast(document: &str, position: Position) -> (r: Option<CallInfo>)
    requires
        text::byte_len(document@) < usize::MAX,
    ensures
        match tree_call(document@, syntax::tree_of(document@), utils::position_to_byte_spec(document@, position)) {
            Some(c) => r is Some && call_view(r->0) == c,
            None => r is None,
        },
{
    proof {
        text::lemma_byte_len_bound(document@);
    }
    let d = parser::read_doc(document);
    let b = utils::position_to_byte(document, position);
    tree_call_exec(&d, b)
}

fn utf16_prefix_exec(l: &[char], u: u32) -> (r: Vec<char>)
    ensures
        r@ == utf16_prefix(l@, u),
{
    let mut i: usize = 0;
    let mut acc: u64 = 0;
    while i < l.len() && acc < u as u64
        invariant
            i <= l@.len(),
            acc <= 2 * i,
            acc < u as u64 + 2,
            utf16_chars(l@, u as int, 0, 0) == utf16_chars(l@, u as int, i as int, acc as int),
        decreases l@.len() - i,
    {
        let w: u64 = if (l[i] as u32) < 0x10000 {
            1
        } else {
            2
        };
        acc = acc + w;
        i = i + 1;
    }
    text::sub_chars(l, 0, i)
}

fn line_call(document: &str, position: Position) -> (r: Option<CallInfo>)
    requires
        match utils::line_at(document@, position.line as int) {
            Some(l) => find_call_ok(utf16_prefix(l, position.character)),
            None => true,
        },
    ensures
        match utils::line_at(document@, position.line as int) {
            Some(l) => match find_call(utf16_prefix(l, position.character)) {
                Some(c) => r is Some && call_view(r->0) == c,
                None => r is None,
            },
            None => r is None,
        },
{
    match utils::get_line_at_position(document, position.line as usize) {
        Some(l) => {
            let lc = chars_of(l);
            let pre = utf16_prefix_exec(lc.as_slice(), position.character);
            let ps = string_from_chars(pre.as_slice());
            find_function_call(ps.as_str())
        },
        None => None,
    }
}

/// The signature help at a position (see `signature_help`).
pub fn provide_signature_help_core(document: &str, symbols: &SymbolTable, position: Position) -> (r: Option<
    SignatureHelpInfo,
>)
    requires
        text::byte_len(document@) < usize::MAX,
        signature_help_ok(document@, position),
    ensures
        match signature_help(document@, *symbols, position) {
            Some(m) => r is Some && r->0.deep_view() == m,
            None => r is None,
        },
{
    let call = match find_function_call_ast(document, position) {
        Some(c) => Some(c),
        None => line_call(document, position),
    };
    match call {
        Some(c) => signature_help_for_call(symbols, &c),
        None => None,
    }
}

/// Whether `provide_signature_help_core` can serve this position
/// (`signature_help_ok`).
pub fn signature_help_applies(document: &str, position: Position) -> (b: bool)
    requires
        text::byte_len(document@) < usize::MAX,
    ensures
        b == signature_help_ok(document@, position),
{
    if find_function_call_ast(document, position).is_some() {
        return true;
    }
    match utils::get_line_at_position(document, position.line as usize) {
        Some(l) => {
            let lc = chars_of(l);
            let pre = utf16_prefix_exec(lc.as_slice(), position.character);
            let ps = string_from_chars(pre.as_slice());
            find_call_applies(ps.as_str())
        },
        None => true,
    }
}


/// The signature help of a direct call describes the callee: its label is
/// the callee's signature, its documentation is the callee's doc comment
/// (none when it has none), and it lists one parameter per parameter of the
/// callee, in order, labelled `(<name> <type>)` (or `(param <type>)` when
/// unnamed) and without documentation of its own.
pub proof fn law_direct_signature_describes_callee(f: Function, arg_text: Seq<char>, k: int)
    ensures
        direct_signature(f, arg_text).label == function_signature(f),
        f.doc_comment is None ==> direct_signature(f, arg_text).documentation is None,
        forall|d: String| f.doc_comment == Some(d) ==> direct_signature(f, arg_text).documentation == Some(d@),
        direct_signature(f, arg_text).parameters.len() == f.parameters@.len(),
        0 <= k < f.parameters@.len() ==> direct_signature(f, arg_text).parameters[k].documentation is None,
        0 <= k < f.parameters@.len() && f.parameters@[k].name is Some ==> direct_signature(f, arg_text).parameters[k].label
            == "("@ + f.parameters@[k].name->0@ + " "@ + value_type_name(f.parameters@[k].param_type) + ")"@,
        0 <= k < f.parameters@.len() && f.parameters@[k].name is None ==> direct_signature(f, arg_text).parameters[k].label
            == "(param "@ + value_type_name(f.parameters@[k].param_type) + ")"@,
{
}


/// The active parameter counts the commas typed so far, and never passes
/// the last parameter: it is the number of commas while that is below the
/// parameter count, else the parameter count (both as `u32`).
pub proof fn law_active_parameter(arg_text: Seq<char>, count: nat)
    ensures
        active_param(arg_text, count) <= low_u32(count),
        count <= u32::MAX && count_char(arg_text, ',') < count ==> active_param(arg_text, count) == count_char(
            arg_text,
            ',',
        ),
        count_char(arg_text, ',') <= u32::MAX && count_char(arg_text, ',') >= count ==> active_param(arg_text, count) == count,
{
}

/// A direct call by `$name` describes the last function declared with that
/// name; a direct call by a decimal index the function at that position.
pub proof fn law_direct_callee(sym: SymbolTable, name: Seq<char>, i: int)
    ensures
        starts_with(name, "$"@) && 0 <= i < sym.functions@.len() && sym.functions@[i].name is Some
            && sym.functions@[i].name->0@ == name && (forall|j: int|
            i < j < sym.functions@.len() ==> (#[trigger] sym.functions@[j]).name is None
                || sym.functions@[j].name->0@ != name) ==> callee_function(sym, name) == Some(sym.functions@[i]),
{
    if starts_with(name, "$"@) && 0 <= i < sym.functions@.len() && sym.functions@[i].name is Some
        && sym.functions@[i].name->0@ == name && (forall|j: int|
        i < j < sym.functions@.len() ==> (#[trigger] sym.functions@[j]).name is None
            || sym.functions@[j].name->0@ != name) {
        lemma_last_named_function(sym.functions@, name, i);
    }
}

proof fn lemma_last_named_function(fs: Seq<Function>, n: Seq<char>, i: int)
    requires
        0 <= i < fs.len(),
        fs[i].name is Some && fs[i].name->0@ == n,
        forall|j: int| i < j < fs.len() ==> (#[trigger] fs[j]).name is None || fs[j].name->0@ != n,
    ensures
        last_named(fs, n) == Some(i),
    decreases fs.len(),
{
    if i < fs.len() - 1 {
        let p = fs.drop_last();
        assert forall|j: int| i < j < p.len() implies (#[trigger] p[j]).name is None || p[j].name->0@ != n by {
            assert(p[j] == fs[j]);
        }
        assert(fs[fs.len() - 1].name is None || fs[fs.len() - 1].name->0@ != n);
        lemma_last_named_function(p, n, i);
    }
}

/// The signature help of a `call_ref` to a function type lists the type's
/// parameters in order, labelled `(param<i> <type>)`, then the function
/// reference itself, and says which type the reference must have.
pub proof fn law_call_ref_signature(
    t: TypeDef,
    params: Seq<ValueType>,
    results: Seq<ValueType>,
    call_type: CallType,
    arg_text: Seq<char>,
    k: int,
)
    ensures
        call_ref_signature(t, params, results, call_type, arg_text).parameters.len() == params.len() + 1,
        0 <= k < params.len() ==> call_ref_signature(t, params, results, call_type, arg_text).parameters[k].label
            == "(param"@ + decimal(k as nat) + " "@ + value_type_name(params[k]) + ")"@,
        call_ref_signature(t, params, results, call_type, arg_text).parameters[params.len() as int].label
            == "(funcref)"@,
        call_ref_signature(t, params, results, call_type, arg_text).documentation == Some(
            "Indirect call via typed function reference. The last argument must be a function reference of type "@
                + type_display_name(t) + "."@,
        ),
{
}

} // verus!
