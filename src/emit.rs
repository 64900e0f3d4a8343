//! The generated TypeScript: per interface a module with the sender class and
//! the receiver dispatcher and a module with the bind-config factory, plus one
//! shared module with the protocol identifier and the function-ID table.
use vstd::prelude::*;
use vstd::string::*;

use crate::code::Snippet;
use crate::comment::{CommentBlock, CommentStyle};
use crate::funcid::{flat_pairs, is_id_table, make_func_id_map, FunctionId, FIRST_FUNCTION_ID};
use crate::function::{Arg, Function};
use crate::import::{ident_repr, ident_views, IdentView, ImportView};
use crate::interface::Interface;
use crate::package::{link_map, Package};
use crate::sorted::{has_key, locate, Named};
use crate::text::{is_prefix, lemma_seq_lt_total, str_eq, str_starts_with};

verus! {

/// `a` followed by `b`.
fn cat(a: &str, b: &str) -> (r: String)
    ensures
        r@ == a@ + b@,
{
    let mut r = String::from_str(a);
    r.append(b);
    r
}

/// `a`, `b` and `c` one after another.
fn cat3(a: &str, b: &str, c: &str) -> (r: String)
    ensures
        r@ == a@ + b@ + c@,
{
    let mut r = cat(a, b);
    r.append(c);
    r
}

fn line(s: String) -> (r: Snippet)
    ensures
        r == Snippet::Line(s),
{
    Snippet::Line(s)
}

fn line_str(s: &str) -> (r: Snippet)
    ensures
        r is Line && r->Line_0@ == s@,
{
    Snippet::Line(String::from_str(s))
}

fn block(start: String, body: Vec<Snippet>, end: String) -> (r: Snippet)
    ensures
        r == (Snippet::Block { start, body, end, connected: false, never_inlined: false }),
{
    Snippet::Block { start, body, end, connected: false, never_inlined: false }
}

/// The decimal digit of `d`.
pub open spec fn digit_char(d: nat) -> char {
    if d == 0 { '0' } else if d == 1 { '1' } else if d == 2 { '2' } else if d == 3 { '3' }
    else if d == 4 { '4' } else if d == 5 { '5' } else if d == 6 { '6' } else if d == 7 { '7' }
    else if d == 8 { '8' } else { '9' }
}

/// The decimal numeral of `n`.
pub open spec fn decimal_of(n: nat) -> Seq<char>
    decreases n,
{
    if n < 10 {
        seq![digit_char(n)]
    } else {
        decimal_of(n / 10).push(digit_char(n % 10))
    }
}

fn digit_str(d: u64) -> (r: &'static str)
    requires
        d < 10,
    ensures
        r@ == seq![digit_char(d as nat)],
{
    proof {
        reveal_strlit("0");
        reveal_strlit("1");
        reveal_strlit("2");
        reveal_strlit("3");
        reveal_strlit("4");
        reveal_strlit("5");
        reveal_strlit("6");
        reveal_strlit("7");
        reveal_strlit("8");
        reveal_strlit("9");
    }
    if d == 0 { "0" } else if d == 1 { "1" } else if d == 2 { "2" } else if d == 3 { "3" }
    else if d == 4 { "4" } else if d == 5 { "5" } else if d == 6 { "6" } else if d == 7 { "7" }
    else if d == 8 { "8" } else { assert(seq!['9'] =~= "9"@); "9" }
}

/// The decimal numeral of `n`.
pub fn decimal(n: u64) -> (r: String)
    ensures
        r@ == decimal_of(n as nat),
    decreases n,
{
    if n < 10 {
        String::from_str(digit_str(n))
    } else {
        let mut r = decimal(n / 10);
        r.append(digit_str(n % 10));
        r
    }
}

/// How a character is written inside a double-quoted string literal:
/// `\` and `"` escaped by a backslash, line terminators as escapes, any
/// other character as itself.
pub open spec fn escape_char(c: char) -> Seq<char> {
    if c == '"' {
        seq!['\\', '"']
    } else if c == '\\' {
        seq!['\\', '\\']
    } else if c == '\n' {
        seq!['\\', 'n']
    } else if c == '\r' {
        seq!['\\', 'r']
    } else if c == '\u{2028}' {
        seq!['\\', 'u', '2', '0', '2', '8']
    } else if c == '\u{2029}' {
        seq!['\\', 'u', '2', '0', '2', '9']
    } else {
        seq![c]
    }
}

/// `s` written inside a double-quoted string literal.
pub open spec fn escaped(s: Seq<char>) -> Seq<char>
    decreases s.len(),
{
    if s.len() == 0 {
        seq![]
    } else {
        escaped(s.drop_last()) + escape_char(s.last())
    }
}

/// The escape of `c`, when it needs one.
fn escape_of(c: char) -> (r: Option<&'static str>)
    ensures
        r is Some ==> r->0@ == escape_char(c),
        r is None ==> escape_char(c) == seq![c],
{
    proof {
        reveal_strlit("\\\"");
        reveal_strlit("\\\\");
        reveal_strlit("\\n");
        reveal_strlit("\\r");
        reveal_strlit("\\u2028");
        reveal_strlit("\\u2029");
    }
    if c == '"' {
        assert("\\\""@ =~= escape_char(c));
        Some("\\\"")
    } else if c == '\\' {
        assert("\\\\"@ =~= escape_char(c));
        Some("\\\\")
    } else if c == '\n' {
        assert("\\n"@ =~= escape_char(c));
        Some("\\n")
    } else if c == '\r' {
        assert("\\r"@ =~= escape_char(c));
        Some("\\r")
    } else if c == '\u{2028}' {
        assert("\\u2028"@ =~= escape_char(c));
        Some("\\u2028")
    } else if c == '\u{2029}' {
        assert("\\u2029"@ =~= escape_char(c));
        Some("\\u2029")
    } else {
        None
    }
}

/// `s` as a double-quoted string literal.
pub open spec fn quoted_of(s: Seq<char>) -> Seq<char> {
    seq!['"'] + escaped(s) + seq!['"']
}

/// `s` as a double-quoted string literal.
pub fn quoted(s: &str) -> (r: String)
    ensures
        r@ == quoted_of(s@),
{
    proof {
        reveal_strlit("\"");
    }
    let n = s.unicode_len();
    let mut r = String::from_str("\"");
    let mut i: usize = 0;
    while i < n
        invariant
            i <= n,
            n == s@.len(),
            r@ == seq!['"'] + escaped(s@.subrange(0, i as int)),
        decreases n - i,
    {
        let c = s.get_char(i);
        let piece = s.substring_char(i, i + 1);
        assert(s@.subrange(0, i + 1).drop_last() =~= s@.subrange(0, i as int));
        assert(piece@ =~= seq![c]);
        match escape_of(c) {
            Some(e) => r.append(e),
            None => r.append(piece),
        }
        assert(r@ =~= seq!['"'] + escaped(s@.subrange(0, i + 1)));
        i += 1;
    }
    assert(s@.subrange(0, i as int) =~= s@);
    r.append("\"");
    r
}

/// The source text of an argument in a parameter list.
pub open spec fn arg_text(ident: Seq<char>, optional: bool, typ: Seq<char>) -> Seq<char> {
    if optional {
        ident + "?: "@ + typ
    } else {
        ident + ": "@ + typ
    }
}

impl Arg {
    /// Convert this argument to TypeScript code
    pub fn to_code(&self) -> (r: String)
        ensures
            r@ == arg_text(self.ident@, self.optional, self.typ@),
    {
        if self.optional {
            cat3(self.ident.as_str(), "?: ", self.typ.as_str())
        } else {
            cat3(self.ident.as_str(), ": ", self.typ.as_str())
        }
    }

    /// Convert this argument to a TypeScript function argument
    pub fn to_arg(&self) -> (r: String)
        ensures
            r@ == arg_text(self.ident@, self.optional, self.typ@),
    {
        self.to_code()
    }
}

/// The text of one comment line in the block's style.
pub open spec fn comment_line_text(style: CommentStyle, l: Seq<char>) -> Seq<char> {
    match style {
        CommentStyle::TripleSlash => "/// "@ + l,
        CommentStyle::JsDoc => if is_prefix("* "@, l) {
            " "@ + l
        } else {
            " * "@ + l
        },
    }
}

/// `c` is the comment block `b` as code, in its own style.
pub open spec fn comment_code_ok(c: Snippet, b: CommentBlock) -> bool {
    c is Concat && {
        let parts = c->Concat_0@;
        let k: int = if b.style == CommentStyle::JsDoc { 1 } else { 0 };
        &&& parts.len() == b.lines@.len() + 2 * k
        &&& forall|i: int|
            0 <= i < b.lines@.len() ==> (#[trigger] parts[i + k]) is Line && parts[i + k]->Line_0@
                == comment_line_text(b.style, b.lines@[i]@)
        &&& k == 1 ==> parts[0] is Line && parts[0]->Line_0@ == "/**"@ && parts[parts.len() - 1] is Line
            && parts[parts.len() - 1]->Line_0@ == " */"@
    }
}

impl CommentBlock {
    /// The comment as code, in its own style; nothing when it has no line.
    pub fn to_code(&self) -> (r: Option<Snippet>)
        ensures
            r is None <==> self.lines@.len() == 0,
            r is Some ==> comment_code_ok(r->0, *self),
    {
        if self.lines.len() == 0 {
            return None;
        }
        let jsdoc = self.style == CommentStyle::JsDoc;
        let ghost k: int = if jsdoc { 1 } else { 0 };
        let mut parts: Vec<Snippet> = Vec::new();
        if jsdoc {
            parts.push(line_str("/**"));
        }
        let mut i: usize = 0;
        while i < self.lines.len()
            invariant
                i <= self.lines@.len(),
                jsdoc == (self.style == CommentStyle::JsDoc),
                k == (if jsdoc { 1int } else { 0int }),
                parts@.len() == i + k,
                jsdoc ==> parts@[0] is Line && parts@[0]->Line_0@ == "/**"@,
                forall|j: int|
                    0 <= j < i ==> (#[trigger] parts@[j + k]) is Line && parts@[j + k]->Line_0@
                        == comment_line_text(self.style, self.lines@[j]@),
            decreases self.lines@.len() - i,
        {
            let l = self.lines[i].as_str();
            let text = if !jsdoc {
                cat("/// ", l)
            } else if str_starts_with(l, "* ") {
                cat(" ", l)
            } else {
                cat(" * ", l)
            };
            parts.push(line(text));
            i += 1;
        }
        if jsdoc {
            parts.push(line_str(" */"));
        }
        Some(Snippet::Concat(parts))
    }
}

/// `items` are lines with the texts `texts`, in order.
pub open spec fn lines_are(items: Seq<Snippet>, texts: Seq<Seq<char>>) -> bool {
    items.len() == texts.len() && forall|i: int|
        0 <= i < items.len() ==> (#[trigger] items[i]) is Line && items[i]->Line_0@ == texts[i]
}

/// The one list inside a block.
pub open spec fn list_in(b: Snippet) -> Seq<Snippet> {
    b->Block_body@[0]->List_items@
}

/// `b` is a block whose body is a single list.
pub open spec fn holds_list(b: Snippet) -> bool {
    b is Block && b->Block_body@.len() == 1 && b->Block_body@[0] is List
}

/// The names that a receiver case gives the elements of the payload array:
/// `a0`, `a1`, ...
pub open spec fn positional_names(n: nat) -> Seq<Seq<char>> {
    Seq::new(n, |i: int| "a"@ + decimal_of(i as nat))
}

/// `r` is the receiver case of `f` labelled `funcid_expr`: it hands the
/// elements of the array `payload`, by position, to the method of `delegate`;
/// a function without arguments never reads the array.
pub open spec fn recv_case_ok(
    r: Snippet,
    f: Function,
    funcid_expr: Seq<char>,
    delegate: Seq<char>,
    payload: Seq<char>,
) -> bool {
    &&& r is Block
    &&& r->Block_start@ == "case "@ + funcid_expr + ": {"@
    &&& r->Block_end@ == "}"@
    &&& ({
            let body = r->Block_body@;
            if f.args@.len() == 0 {
                &&& body.len() == 1
                &&& body[0] is Line
                &&& body[0]->Line_0@ == recv_call_start(delegate, f.name@) + ");"@
            } else {
                &&& body.len() == 2
                &&& body[0] is Block
                &&& body[0]->Block_start@ == "const ["@
                &&& body[0]->Block_end@ == "] = "@ + payload + ";"@
                &&& body[1] is Block
                &&& body[1]->Block_start@ == recv_call_start(delegate, f.name@)
                &&& body[1]->Block_end@ == ");"@
                &&& holds_list(body[0]) && lines_are(list_in(body[0]), positional_names(f.args@.len()))
                &&& holds_list(body[1]) && lines_are(list_in(body[1]), positional_names(f.args@.len()))
            }
        })
}

/// The result type that makes a call fire-and-forget.
pub open spec fn is_void(t: Seq<char>) -> bool {
    t == "void"@
}

/// The start of the transport call in a sender method: results of type `void`
/// go through the fire-and-forget call, all others through the generic one.
pub open spec fn send_call_text(result_type: Seq<char>, id: Seq<char>) -> Seq<char> {
    if is_void(result_type) {
        "return this.sender.sendVoid("@ + id + ", ["@
    } else {
        "return this.sender.send<"@ + result_type + ">("@ + id + ", ["@
    }
}

/// A function whose result type is `void` and one whose result type is not
/// go through two different transport calls in the sender: the first through
/// the fire-and-forget `sendVoid`, the second through the generic `send<T>`.
pub proof fn lemma_transport_shapes_distinct(void_type: Seq<char>, value_type: Seq<char>, id: Seq<char>)
    requires
        is_void(void_type),
        !is_void(value_type),
    ensures
        is_prefix("return this.sender.sendVoid("@, send_call_text(void_type, id)),
        is_prefix("return this.sender.send<"@, send_call_text(value_type, id)),
        !is_prefix("return this.sender.sendVoid("@, send_call_text(value_type, id)),
        !is_prefix("return this.sender.send<"@, send_call_text(void_type, id)),
{
    reveal_strlit("return this.sender.sendVoid(");
    reveal_strlit("return this.sender.send<");
    let v = "return this.sender.sendVoid("@;
    let g = "return this.sender.send<"@;
    let tv = send_call_text(void_type, id);
    let tg = send_call_text(value_type, id);
    assert(tv.subrange(0, v.len() as int) =~= v);
    assert(tg.subrange(0, g.len() as int) =~= g);
    assert(tg[23] == '<');
    assert(v[23] == 'V');
    assert(tv[23] == 'V');
    assert(g[23] == '<');
}

/// The call a receiver case makes on the delegate, for a function of `n`
/// arguments named `name`.
pub open spec fn recv_call_start(delegate: Seq<char>, name: Seq<char>) -> Seq<char> {
    "return "@ + delegate + "."@ + name + "("@
}

impl Function {
    /// The start of the transport call that the sender method makes.
    pub fn send_call_start(&self, funcid_expr: &str) -> (r: String)
        ensures
            r@ == send_call_text(self.result_type@, funcid_expr@),
    {
        if str_eq(self.result_type.as_str(), "void") {
            cat3("return this.sender.sendVoid(", funcid_expr, ", [")
        } else {
            let a = cat3("return this.sender.send<", self.result_type.as_str(), ">(");
            cat3(a.as_str(), funcid_expr, ", [")
        }
    }

    /// The sender method: it posts `funcid_expr` and the arguments, in order,
    /// through the bound sender, and returns the async-result handle.
    pub fn to_send_function(&self, funcid_expr: &str, ident_wxpromise: &str) -> (r: Snippet)
        ensures
            r is Concat,
            ({
                let parts = r->Concat_0@;
                let body = parts[parts.len() - 1];
                &&& parts.len() >= 3
                &&& body is Block
                &&& body->Block_body@.len() == 1
                &&& body->Block_body@[0] is Block
                &&& body->Block_body@[0]->Block_start@ == send_call_text(self.result_type@, funcid_expr@)
                &&& holds_list(body->Block_body@[0])
                &&& lines_are(list_in(body->Block_body@[0]), self.args@.map_values(|a: Arg| a.ident@))
                &&& body->Block_body@[0]->Block_end@ == "]);"@
                &&& parts[parts.len() - 2] is Block
                &&& parts[parts.len() - 2]->Block_start@ == "public "@ + self.name@ + "("@
                &&& parts[parts.len() - 2]->Block_end@ == "): "@ + ident_wxpromise@ + "<"@ + self.result_type@
                    + ">"@
                &&& holds_list(parts[parts.len() - 2])
                &&& lines_are(
                    list_in(parts[parts.len() - 2]),
                    self.args@.map_values(|a: Arg| arg_text(a.ident@, a.optional, a.typ@)),
                )
            }),
    {
        let mut params: Vec<Snippet> = Vec::new();
        let mut names: Vec<Snippet> = Vec::new();
        let mut i: usize = 0;
        while i < self.args.len()
            invariant
                i <= self.args@.len(),
                lines_are(names@, self.args@.subrange(0, i as int).map_values(|a: Arg| a.ident@)),
                lines_are(
                    params@,
                    self.args@.subrange(0, i as int).map_values(|a: Arg| arg_text(a.ident@, a.optional, a.typ@)),
                ),
            decreases self.args@.len() - i,
        {
            let ghost pbefore = params@;
            params.push(line(self.args[i].to_code()));
            assert(self.args@.subrange(0, i + 1).map_values(|a: Arg| arg_text(a.ident@, a.optional, a.typ@))
                =~= self.args@.subrange(0, i as int).map_values(
                |a: Arg| arg_text(a.ident@, a.optional, a.typ@),
            ).push(arg_text(self.args@[i as int].ident@, self.args@[i as int].optional, self.args@[i as int].typ@)));
            assert(forall|j: int| 0 <= j < i ==> params@[j] == pbefore[j]);
            let ghost before = names@;
            names.push(line(self.args[i].ident.clone()));
            assert(self.args@.subrange(0, i + 1).map_values(|a: Arg| a.ident@) =~= self.args@.subrange(
                0,
                i as int,
            ).map_values(|a: Arg| a.ident@).push(self.args@[i as int].ident@));
            assert(forall|j: int| 0 <= j < i ==> names@[j] == before[j]);
            i += 1;
        }
        assert(self.args@.subrange(0, i as int) =~= self.args@);
        let mut decl_body: Vec<Snippet> = Vec::new();
        decl_body.push(Snippet::List { sep: String::from_str(","), items: params });
        let start = cat3("public ", self.name.as_str(), "(");
        let end = {
            let a = cat3("): ", ident_wxpromise, "<");
            cat3(a.as_str(), self.result_type.as_str(), ">")
        };
        let function_decl = block(start, decl_body, end);
        let mut call_body: Vec<Snippet> = Vec::new();
        call_body.push(Snippet::List { sep: String::from_str(","), items: names });
        let call = block(self.send_call_start(funcid_expr), call_body, String::from_str("]);"));
        let mut outer: Vec<Snippet> = Vec::new();
        outer.push(call);
        let function_body = Snippet::Block {
            start: String::from_str("{"),
            body: outer,
            end: String::from_str("}"),
            connected: true,
            never_inlined: true,
        };
        let mut parts: Vec<Snippet> = Vec::new();
        parts.push(line_str(""));
        match self.comment.to_code() {
            Some(c) => parts.push(c),
            None => {},
        }
        parts.push(function_decl);
        parts.push(function_body);
        Snippet::Concat(parts)
    }

    /// The receiver case for this function: it hands the arguments, taken
    /// from the payload array by position, to the delegate and returns what
    /// the delegate returns. A function without arguments never reads the array.
    pub fn to_recv_case(&self, funcid_expr: &str, delegate_ident: &str, payload_ident: &str) -> (r: Snippet)
        ensures
            recv_case_ok(r, *self, funcid_expr@, delegate_ident@, payload_ident@),
    {
        let call_start = {
            let a = cat3("return ", delegate_ident, ".");
            cat3(a.as_str(), self.name.as_str(), "(")
        };
        let mut body: Vec<Snippet> = Vec::new();
        if self.args.len() == 0 {
            body.push(line(cat(call_start.as_str(), ");")));
        } else {
            let mut names_a: Vec<Snippet> = Vec::new();
            let mut names_b: Vec<Snippet> = Vec::new();
            let mut i: usize = 0;
            while i < self.args.len()
                invariant
                    i <= self.args@.len(),
                    lines_are(names_a@, positional_names(i as nat)),
                    lines_are(names_b@, positional_names(i as nat)),
                decreases self.args@.len() - i,
            {
                let name = cat("a", decimal(i as u64).as_str());
                let ghost ba = names_a@;
                let ghost bb = names_b@;
                names_a.push(line(name.clone()));
                names_b.push(line(name));
                assert(positional_names((i + 1) as nat) =~= positional_names(i as nat).push(name@));
                assert(forall|j: int| 0 <= j < i ==> names_a@[j] == ba[j] && names_b@[j] == bb[j]);
                i += 1;
            }
            let mut destructure: Vec<Snippet> = Vec::new();
            destructure.push(Snippet::List { sep: String::from_str(","), items: names_a });
            body.push(block(String::from_str("const ["), destructure, cat3("] = ", payload_ident, ";")));
            let mut call: Vec<Snippet> = Vec::new();
            call.push(Snippet::List { sep: String::from_str(","), items: names_b });
            body.push(block(call_start, call, String::from_str(");")));
        }
        block(cat3("case ", funcid_expr, ": {"), body, String::from_str("}"))
    }

    /// The case of the receiver dispatcher's `switch` for this function: the
    /// delegate is `handler` and the payload array `args`.
    pub fn to_recv_switch_case(&self, funcid_expr: &str) -> (r: Snippet)
        ensures
            recv_case_ok(r, *self, funcid_expr@, "handler"@, "args"@),
    {
        self.to_recv_case(funcid_expr, "handler", "args")
    }
}

/// The first lines of every emitted module.
fn header() -> (r: Snippet) {
    let mut parts: Vec<Snippet> = Vec::new();
    parts.push(line_str("/*"));
    parts.push(line_str(" * This file is written by the workex tool and rewritten on each run."));
    parts.push(line_str(" *"));
    parts.push(line_str(" * Please visit https://workex.pistonite.dev for more information"));
    parts.push(line_str(" */"));
    parts.push(line_str(""));
    Snippet::Concat(parts)
}

/// The expression for the ID of `function` of `interface`: its entry in the
/// shared table.
pub open spec fn funcid_expr_of(interface: Seq<char>, function: Seq<char>) -> Seq<char> {
    "FuncId["@ + quoted_of(interface + "."@ + function) + "]"@
}

fn funcid_expr(interface: &str, function: &str) -> (r: String)
    ensures
        r@ == funcid_expr_of(interface@, function@),
{
    let key = cat3(interface, ".", function);
    let q = quoted(key.as_str());
    cat3("FuncId[", q.as_str(), "]")
}

/// `import type { <name> } from "../<file>";`
fn import_interface_line(name: &str, filename: &str) -> (r: Snippet)
    ensures
        r is Line,
        r->Line_0@ == "import type { "@ + name@ + " } from \"../"@ + filename@ + "\";"@,
{
    let a = cat3("import type { ", name, " } from \"../");
    line(cat3(a.as_str(), filename, "\";"))
}

/// `c` is the import statement `i` as code: an unparsed import as it was,
/// a parsed one as `import {`, its identifiers, and `} from "<source>";`.
pub open spec fn import_code_ok(c: Snippet, i: ImportView) -> bool {
    match i {
        ImportView::Opaque(t) => c is Line && c->Line_0@ == t,
        ImportView::Import { is_type, idents, from } => {
            &&& holds_list(c)
            &&& c->Block_start@ == if is_type {
                "import type {"@
            } else {
                "import {"@
            }
            &&& c->Block_end@ == "} from \""@ + from + "\";"@
            &&& lines_are(list_in(c), idents.map_values(|x: IdentView| ident_repr(x, is_type)))
        },
    }
}

/// `c` is the statements `s` as code, one after another.
pub open spec fn imports_code_ok(c: Snippet, s: Seq<ImportView>) -> bool {
    &&& c is Concat
    &&& c->Concat_0@.len() == s.len()
    &&& forall|i: int| 0 <= i < s.len() ==> import_code_ok(#[trigger] c->Concat_0@[i], s[i])
}

impl crate::import::Imports {
    /// The import statements, one after another.
    pub fn to_code(&self) -> (r: Snippet)
        ensures
            imports_code_ok(r, self.view_statements()),
    {
        let mut parts: Vec<Snippet> = Vec::new();
        let mut i: usize = 0;
        while i < self.statements.len()
            invariant
                i <= self.statements@.len(),
                parts@.len() == i,
                forall|j: int| 0 <= j < i ==> import_code_ok(#[trigger] parts@[j], self.view_statements()[j]),
            decreases self.statements@.len() - i,
        {
            let c = self.statements[i].to_code();
            let ghost before = parts@;
            parts.push(c);
            assert(forall|j: int| 0 <= j < i ==> parts@[j] == before[j]);
            i += 1;
        }
        Snippet::Concat(parts)
    }
}

impl crate::import::Import {
    /// This import statement as code.
    pub fn to_code(&self) -> (r: Snippet)
        ensures
            import_code_ok(r, self@),
    {
        match self {
            crate::import::Import::Opaque(s) => Snippet::Line(s.clone()),
            crate::import::Import::Import { is_type, idents, from } => {
                let mut items: Vec<Snippet> = Vec::new();
                let mut i: usize = 0;
                while i < idents.len()
                    invariant
                        i <= idents@.len(),
                        lines_are(items@, ident_views(idents@).subrange(0, i as int).map_values(
                            |x: IdentView| ident_repr(x, *is_type),
                        )),
                    decreases idents@.len() - i,
                {
                    let t = idents[i].to_repr(*is_type);
                    let ghost before = items@;
                    items.push(line(t));
                    proof {
                        assert(ident_views(idents@).subrange(0, i + 1).map_values(
                            |x: IdentView| ident_repr(x, *is_type),
                        ) =~= ident_views(idents@).subrange(0, i as int).map_values(
                            |x: IdentView| ident_repr(x, *is_type),
                        ).push(ident_repr(idents@[i as int]@, *is_type)));
                        assert(forall|j: int| 0 <= j < i ==> items@[j] == before[j]);
                    }
                    i += 1;
                }
                assert(ident_views(idents@).subrange(0, i as int) =~= ident_views(idents@));
                let mut body: Vec<Snippet> = Vec::new();
                body.push(Snippet::List { sep: String::from_str(","), items });
                let start = if *is_type {
                    String::from_str("import type {")
                } else {
                    String::from_str("import {")
                };
                block(start, body, cat3("} from \"", from.as_str(), "\";"))
            },
        }
    }
}

/// The start of the transport call of the `i`-th sender method of `iface`.
pub open spec fn method_call_start(iface: Interface, i: int) -> Seq<char> {
    send_call_text(iface.functions@[i].result_type@, funcid_expr_of(iface.name@, iface.functions@[i].name@))
}

/// `r` is the sender class of `interface`.
pub open spec fn sender_class_ok(r: Snippet, interface: Interface) -> bool {
    &&& r is Block
    &&& r->Block_start@ == "export class _wxSenderImpl implements "@ + interface.name@ + " {"@
    &&& r->Block_body@.len() == 3 + interface.functions@.len()
    &&& forall|i: int|
            0 <= i < interface.functions@.len() ==> {
                let m = #[trigger] r->Block_body@[3 + i];
                let body = m->Concat_0@[m->Concat_0@.len() - 1];
                &&& m is Concat
                &&& m->Concat_0@.len() >= 3
                &&& body is Block
                &&& body->Block_body@.len() == 1
                &&& body->Block_body@[0] is Block
                &&& body->Block_body@[0]->Block_start@ == method_call_start(interface, i)
            }
}

/// The sender class of an interface: a field, a constructor, then one method
/// per function, in order, each posting the function's ID.
pub fn sender_class(interface: &Interface) -> (r: Snippet)
    ensures
        sender_class_ok(r, *interface),
{
    let imports = &interface.impl_imports;
    let name = interface.name.as_str();
    let wxsender = imports.ident_wxsender.as_str();
    let mut ctor_body: Vec<Snippet> = Vec::new();
    ctor_body.push(line_str("this.sender = sender"));
    let mut class_body: Vec<Snippet> = Vec::new();
    class_body.push(line(cat("private sender: ", wxsender)));
    class_body.push(line_str(""));
    class_body.push(block(cat3("constructor(sender: ", wxsender, ") {"), ctor_body, String::from_str("}")));
    let mut i: usize = 0;
    while i < interface.functions.len()
        invariant
            i <= interface.functions@.len(),
            name@ == interface.name@,
            class_body@.len() == 3 + i,
            forall|j: int|
                0 <= j < i ==> {
                    let m = #[trigger] class_body@[3 + j];
                    let body = m->Concat_0@[m->Concat_0@.len() - 1];
                    &&& m is Concat
                    &&& m->Concat_0@.len() >= 3
                    &&& body is Block
                    &&& body->Block_body@.len() == 1
                    &&& body->Block_body@[0] is Block
                    &&& body->Block_body@[0]->Block_start@ == method_call_start(*interface, j)
                },
        decreases interface.functions@.len() - i,
    {
        let f = &interface.functions[i];
        let id = funcid_expr(name, f.name.as_str());
        let m = f.to_send_function(id.as_str(), imports.inner.ident_wxpromise.as_str());
        let ghost before = class_body@;
        let ghost gm = m;
        class_body.push(m);
        assert forall|j: int| 0 <= j < i + 1 implies {
            let m = #[trigger] class_body@[3 + j];
            let body = m->Concat_0@[m->Concat_0@.len() - 1];
            &&& m is Concat
            &&& m->Concat_0@.len() >= 3
            &&& body is Block
            &&& body->Block_body@.len() == 1
            &&& body->Block_body@[0] is Block
            &&& body->Block_body@[0]->Block_start@ == method_call_start(*interface, j)
        } by {
            if j < i {
                assert(class_body@[3 + j] == before[3 + j]);
            } else {
                assert(class_body@[3 + j] == gm);
                assert(interface.functions@[j] == *f);
            }
        }
        i += 1;
    }
    block(cat3("export class _wxSenderImpl implements ", name, " {"), class_body, String::from_str("}"))
}

/// `r` is the receiver dispatcher of `interface`.
pub open spec fn dispatcher_ok(r: Snippet, interface: Interface) -> bool {
    &&& r is Block
    &&& r->Block_body@.len() == 1
    &&& ({
            let switch = r->Block_body@[0];
            let cases = switch->Block_body@[0]->Concat_0@;
            &&& switch is Block
            &&& switch->Block_body@.len() == 1
            &&& switch->Block_body@[0] is Concat
            &&& switch->Block_end@ == "} return Promise.resolve({ err: { code: \"UnknownFunction\" } }); }) as "@
                + interface.impl_imports.ident_wxhandler@ + ";"@
            &&& cases.len() == interface.functions@.len()
            &&& forall|i: int|
                0 <= i < cases.len() ==> recv_case_ok(
                    #[trigger] cases[i],
                    interface.functions@[i],
                    funcid_expr_of(interface.name@, interface.functions@[i].name@),
                    "handler"@,
                    "args"@,
                )
        })
}

/// The receiver dispatcher of an interface: a `switch` over exactly the IDs
/// of its functions, in order, whose default answers `UnknownFunction`.
pub fn receiver_dispatcher(interface: &Interface) -> (r: Snippet)
    ensures
        dispatcher_ok(r, *interface),
{
    let name = interface.name.as_str();
    let wxhandler = interface.impl_imports.ident_wxhandler.as_str();
    let mut cases: Vec<Snippet> = Vec::new();
    let mut i: usize = 0;
    while i < interface.functions.len()
        invariant
            i <= interface.functions@.len(),
            name@ == interface.name@,
            cases@.len() == i,
            forall|j: int|
                0 <= j < i ==> recv_case_ok(
                    #[trigger] cases@[j],
                    interface.functions@[j],
                    funcid_expr_of(interface.name@, interface.functions@[j].name@),
                    "handler"@,
                    "args"@,
                ),
        decreases interface.functions@.len() - i,
    {
        let f = &interface.functions[i];
        let id = funcid_expr(name, f.name.as_str());
        let c = f.to_recv_switch_case(id.as_str());
        let ghost before = cases@;
        let ghost gc = c;
        cases.push(c);
        assert forall|j: int| 0 <= j < i + 1 implies recv_case_ok(
            #[trigger] cases@[j],
            interface.functions@[j],
            funcid_expr_of(interface.name@, interface.functions@[j].name@),
            "handler"@,
            "args"@,
        ) by {
            if j < i {
                assert(cases@[j] == before[j]);
            } else {
                assert(cases@[j] == gc);
                assert(interface.functions@[j] == *f);
            }
        }
        i += 1;
    }
    let mut switch_body: Vec<Snippet> = Vec::new();
    switch_body.push(Snippet::Concat(cases));
    proof {
        reveal_strlit("} return Promise.resolve({ err: { code: \"UnknownFunction\" } }); }) as ");
    }
    let switch_end = cat3("} return Promise.resolve({ err: { code: \"UnknownFunction\" } }); }) as ", wxhandler, ";");
    let dispatcher = block(String::from_str("return ((fId, args: any[]) => { switch (fId) {"), switch_body, switch_end);
    let mut recver_body: Vec<Snippet> = Vec::new();
    recver_body.push(dispatcher);
    let recver_start = {
        let a = cat3("export const _wxRecverImpl = (handler: ", name, "): ");
        cat3(a.as_str(), wxhandler, " => {")
    };
    block(recver_start, recver_body, String::from_str("};"))
}

/// `c` is a declaration under the comment `b`: the comment, when it has
/// lines, then the declaration, which is the last part.
pub open spec fn commented(c: Snippet, b: CommentBlock) -> bool {
    &&& c is Concat
    &&& c->Concat_0@.len() == if b.lines@.len() > 0 { 2int } else { 1int }
    &&& b.lines@.len() > 0 ==> comment_code_ok(c->Concat_0@[0], b)
}

/// `c` is the implementation module of `iface`: the import of the interface,
/// of the shared table and the reconciled imports of its file; then, each
/// under the interface's comment, its sender class and its receiver dispatcher.
pub open spec fn impl_module_ok(c: Snippet, iface: Interface) -> bool {
    &&& c is Concat
    &&& c->Concat_0@.len() == 14
    &&& c->Concat_0@[1] is Line
    &&& c->Concat_0@[1]->Line_0@ == "import type { "@ + iface.name@ + " } from \"../"@ + iface.filename@ + "\";"@
    &&& c->Concat_0@[2] is Line
    &&& c->Concat_0@[2]->Line_0@ == "import { FuncId } from \"./protocol.ts\";"@
    &&& imports_code_ok(c->Concat_0@[4], iface.impl_imports.inner.view_statements())
    &&& commented(c->Concat_0@[11], iface.comment)
    &&& sender_class_ok(last_part(c->Concat_0@[11]), iface)
    &&& commented(c->Concat_0@[13], iface.comment)
    &&& dispatcher_ok(last_part(c->Concat_0@[13]), iface)
}

/// `decl` under the comment `b`.
fn with_comment(b: &CommentBlock, decl: Snippet) -> (r: Snippet)
    ensures
        commented(r, *b),
        last_part(r) == decl,
{
    let mut parts: Vec<Snippet> = Vec::new();
    match b.to_code() {
        Some(c) => parts.push(c),
        None => {},
    }
    parts.push(decl);
    Snippet::Concat(parts)
}

/// The implementation module of one interface: its sender class and its
/// receiver dispatcher, each under the interface's comment.
pub fn emit_interface_impl(interface: &Interface) -> (r: Snippet)
    ensures
        impl_module_ok(r, *interface),
{
    let imports = &interface.impl_imports;
    let name = interface.name.as_str();
    let sender_decl = with_comment(&interface.comment, sender_class(interface));
    let recver_decl = with_comment(&interface.comment, receiver_dispatcher(interface));
    let mut code: Vec<Snippet> = Vec::new();
    code.push(header());
    code.push(import_interface_line(name, interface.filename.as_str()));
    code.push(line_str("import { FuncId } from \"./protocol.ts\";"));
    code.push(line_str(""));
    code.push(imports.inner.to_code());
    code.push(line_str(""));
    code.push(line_str("/*"));
    code.push(line_str(" * These implementations are used internally by the bind-config factories."));
    code.push(line_str(" * They should not be used directly!"));
    code.push(line_str(" */"));
    code.push(line_str(""));
    code.push(sender_decl);
    code.push(line_str(""));
    code.push(recver_decl);
    Snippet::Concat(code)
}

/// The first line of the bind-config factory of interface `name` under the
/// function name `fname`: a linked interface takes a handler for its partner.
pub open spec fn factory_start(fname: Seq<char>, name: Seq<char>, linked: Option<Seq<char>>) -> Seq<char> {
    match linked {
        Some(l) => "export const "@ + fname + " = (handler: "@ + l + ", resolve?: (_: "@ + name
            + ") => (void | Promise<void>)): WxProtocolBindConfig<"@ + name + "> => { return {"@,
        None => "export function "@ + fname + "(handlerOrResolve?: "@ + name + " | ((_: "@ + name
            + ") => (void | Promise<void>))): WxProtocolBindConfig<Record<string, never>> | WxProtocolBindConfig<"@
            + name + "> {"@,
    }
}

/// `c` is the line `t`.
pub open spec fn is_line(c: Snippet, t: Seq<char>) -> bool {
    c is Line && c->Line_0@ == t
}

/// `b` is the `bindSend` entry of a descriptor: it builds the sender, hands
/// it over with `resolve_call` and returns it.
pub open spec fn bind_send_ok(b: Snippet, resolve_call: Seq<char>) -> bool {
    &&& b is Block
    &&& b->Block_start@ == "bindSend: (sender) => {"@
    &&& b->Block_end@ == "},"@
    &&& lines_are(b->Block_body@, seq!["const impl = new _wxSenderImpl(sender);"@, resolve_call, "return impl;"@])
}

/// The overload of an unlinked factory that takes a handler: receiver side.
pub open spec fn recv_overload(fname: Seq<char>, name: Seq<char>) -> Seq<char> {
    "export function "@ + fname + "(handler: "@ + name + "): WxProtocolBindConfig<Record<string, never>>;"@
}

/// The overload of an unlinked factory that takes an optional callback: sender side.
pub open spec fn send_overload(fname: Seq<char>, name: Seq<char>) -> Seq<char> {
    "export function "@ + fname + "(resolve?: (_: "@ + name + ") => (void | Promise<void>)): WxProtocolBindConfig<"@
        + name + ">;"@
}

/// The descriptor lines of a linked factory: this interface sends, the
/// partner's handler receives.
pub open spec fn linked_descriptor_ok(f: Snippet, name: Seq<char>, partner: Seq<char>) -> bool {
    let body = f->Block_body@;
    &&& body.len() == 4
    &&& is_line(body[0], "protocol: PROTOCOL,"@)
    &&& is_line(body[1], "interfaces: ["@ + quoted_of(name) + ", "@ + quoted_of(partner) + "],"@)
    &&& is_line(body[2], "recvHandler: _wxRecverImpl(handler),"@)
    &&& bind_send_ok(body[3], "resolve?.(impl);"@)
}

/// The two descriptors of an unlinked factory: without a handler, a sender
/// side against the stub; with one, a receiver side against the stub.
pub open spec fn unlinked_descriptors_ok(f: Snippet, name: Seq<char>) -> bool {
    let body = f->Block_body@;
    let send_side = body[0]->Block_body@;
    let recv_side = body[1]->Block_body@;
    &&& body.len() == 2
    &&& body[0] is Block
    &&& body[0]->Block_start@ == "if (!handlerOrResolve || typeof handlerOrResolve === \"function\") { return {"@
    &&& send_side.len() == 4
    &&& is_line(send_side[0], "protocol: PROTOCOL,"@)
    &&& is_line(send_side[1], "interfaces: ["@ + quoted_of(name) + ", \"_wxStub\"],"@)
    &&& is_line(send_side[2], "recvHandler: () => Promise.resolve({ err: { code: \"UnexpectedStubCall\" } }),"@)
    &&& bind_send_ok(send_side[3], "handlerOrResolve?.(impl);"@)
    &&& body[1] is Block
    &&& body[1]->Block_start@ == "return {"@
    &&& lines_are(
        recv_side,
        seq![
            "protocol: PROTOCOL,"@,
            "interfaces: [\"_wxStub\", "@ + quoted_of(name) + "],"@,
            "recvHandler: _wxRecverImpl(handlerOrResolve),"@,
            "bindSend: () => ({})"@,
        ],
    )
}

/// `c` is the bind-config factory of interface `name` under the function
/// name `fname`, linked with `linked` or not.
pub open spec fn factory_ok(c: Snippet, fname: Seq<char>, name: Seq<char>, linked: Option<Seq<char>>) -> bool {
    let parts = c->Concat_0@;
    let f = parts[parts.len() - 1];
    &&& c is Concat
    &&& f is Block
    &&& f->Block_start@ == factory_start(fname, name, linked)
    &&& match linked {
        Some(l) => parts.len() == 4 && linked_descriptor_ok(f, name, l),
        None => parts.len() == 6 && is_line(parts[3], recv_overload(fname, name)) && is_line(
            parts[4],
            send_overload(fname, name),
        ) && unlinked_descriptors_ok(f, name),
    }
}

fn bind_send_block(resolve_call: &str) -> (r: Snippet)
    ensures
        bind_send_ok(r, resolve_call@),
{
    let mut body: Vec<Snippet> = Vec::new();
    body.push(line_str("const impl = new _wxSenderImpl(sender);"));
    body.push(line_str(resolve_call));
    body.push(line_str("return impl;"));
    let r = block(String::from_str("bindSend: (sender) => {"), body, String::from_str("},"));
    assert(lines_are(body@, seq!["const impl = new _wxSenderImpl(sender);"@, resolve_call@, "return impl;"@]));
    r
}

/// The bind-config factory of an interface, linked with `linked` or not.
pub fn bind_config_factory(prefix: &str, name: &str, linked: Option<&str>) -> (r: Snippet)
    ensures
        factory_ok(
            r,
            prefix@ + name@,
            name@,
            match linked {
                Some(l) => Some(l@),
                None => None,
            },
        ),
{
    let fname = cat(prefix, name);
    let mut parts: Vec<Snippet> = Vec::new();
    parts.push(line_str("/**"));
    parts.push(line(cat3(" * Create a bind config for the ", name, " interface")));
    parts.push(line_str(" */"));
    match linked {
        Some(l) => {
            let mut body: Vec<Snippet> = Vec::new();
            body.push(line_str("protocol: PROTOCOL,"));
            let names = {
                let a = cat3("interfaces: [", quoted(name).as_str(), ", ");
                cat3(a.as_str(), quoted(l).as_str(), "],")
            };
            body.push(line(names));
            body.push(line_str("recvHandler: _wxRecverImpl(handler),"));
            body.push(bind_send_block("resolve?.(impl);"));
            let start = {
                let a = cat3("export const ", fname.as_str(), " = (handler: ");
                let b = cat3(a.as_str(), l, ", resolve?: (_: ");
                let c = cat3(b.as_str(), name, ") => (void | Promise<void>)): WxProtocolBindConfig<");
                cat3(c.as_str(), name, "> => { return {")
            };
            parts.push(block(start, body, String::from_str("}};")));
        },
        None => {
            let recv_sig = {
                let a = cat3("export function ", fname.as_str(), "(handler: ");
                cat3(a.as_str(), name, "): WxProtocolBindConfig<Record<string, never>>;")
            };
            let send_sig = {
                let a = cat3("export function ", fname.as_str(), "(resolve?: (_: ");
                let b = cat3(a.as_str(), name, ") => (void | Promise<void>)): WxProtocolBindConfig<");
                cat3(b.as_str(), name, ">;")
            };
            parts.push(line(recv_sig));
            parts.push(line(send_sig));
            let mut send_side: Vec<Snippet> = Vec::new();
            send_side.push(line_str("protocol: PROTOCOL,"));
            send_side.push(line(cat3("interfaces: [", quoted(name).as_str(), ", \"_wxStub\"],")));
            send_side.push(line_str("recvHandler: () => Promise.resolve({ err: { code: \"UnexpectedStubCall\" } }),"));
            send_side.push(bind_send_block("handlerOrResolve?.(impl);"));
            let mut recv_side: Vec<Snippet> = Vec::new();
            recv_side.push(line_str("protocol: PROTOCOL,"));
            recv_side.push(line(cat3("interfaces: [\"_wxStub\", ", quoted(name).as_str(), "],")));
            recv_side.push(line_str("recvHandler: _wxRecverImpl(handlerOrResolve),"));
            recv_side.push(line_str("bindSend: () => ({})"));
            assert(lines_are(
                recv_side@,
                seq![
                    "protocol: PROTOCOL,"@,
                    "interfaces: [\"_wxStub\", "@ + quoted_of(name@) + "],"@,
                    "recvHandler: _wxRecverImpl(handlerOrResolve),"@,
                    "bindSend: () => ({})"@,
                ],
            ));
            let mut body: Vec<Snippet> = Vec::new();
            body.push(block(
                String::from_str("if (!handlerOrResolve || typeof handlerOrResolve === \"function\") { return {"),
                send_side,
                String::from_str("};}"),
            ));
            body.push(block(String::from_str("return {"), recv_side, String::from_str("};")));
            let start = {
                let a = cat3("export function ", fname.as_str(), "(handlerOrResolve?: ");
                let b = cat3(a.as_str(), name, " | ((_: ");
                let c = cat3(b.as_str(), name, ") => (void | Promise<void>))): WxProtocolBindConfig<Record<string, never>> | WxProtocolBindConfig<");
                cat3(c.as_str(), name, "> {")
            };
            parts.push(block(start, body, String::from_str("};")));
        },
    }
    Snippet::Concat(parts)
}

/// The last part of a module: for a bind-config module, the factory.
pub open spec fn last_part(c: Snippet) -> Snippet {
    c->Concat_0@[c->Concat_0@.len() - 1]
}

/// `c` is the bind-config module of `iface`, linked with `linked` or not: the
/// imports of the interface, of the shared protocol identifier, of the
/// partner and its receiver (or of this interface's receiver), of this
/// interface's sender; then the factory.
pub open spec fn bus_module_ok(c: Snippet, prefix: Seq<char>, iface: Interface, linked: Option<Interface>) -> bool {
    let parts = c->Concat_0@;
    let name = iface.name@;
    &&& c is Concat
    &&& is_line(parts[1], "import type { WxProtocolBindConfig } from \"@pistonite/workex\";"@)
    &&& is_line(parts[2], "import type { "@ + name + " } from \"../"@ + iface.filename@ + "\";"@)
    &&& is_line(parts[3], "import { PROTOCOL } from \"./protocol.ts\";"@)
    &&& match linked {
        Some(l) => {
            &&& parts.len() == 9
            &&& is_line(parts[4], "import type { "@ + l.name@ + " } from \"../"@ + l.filename@ + "\";"@)
            &&& is_line(parts[5], "import { _wxRecverImpl } from \"./"@ + l.name@ + ".ts\";"@)
            &&& is_line(parts[6], "import { _wxSenderImpl } from \"./"@ + name + ".ts\";"@)
        },
        None => {
            &&& parts.len() == 7
            &&& is_line(parts[4], "import { _wxSenderImpl, _wxRecverImpl } from \"./"@ + name + ".ts\";"@)
        },
    }
    &&& factory_ok(
        last_part(c),
        prefix + name,
        name,
        match linked {
            Some(l) => Some(l.name@),
            None => None,
        },
    )
}

/// The bind-config module of one interface, ending with its factory.
pub fn emit_interface_bus(prefix: &str, interface: &Interface, linked: Option<&Interface>) -> (r: Snippet)
    ensures
        bus_module_ok(
            r,
            prefix@,
            *interface,
            match linked {
                Some(l) => Some(*l),
                None => None,
            },
        ),
{
    let name = interface.name.as_str();
    let mut code: Vec<Snippet> = Vec::new();
    code.push(header());
    code.push(line_str("import type { WxProtocolBindConfig } from \"@pistonite/workex\";"));
    code.push(import_interface_line(name, interface.filename.as_str()));
    code.push(line_str("import { PROTOCOL } from \"./protocol.ts\";"));
    let factory = match linked {
        Some(l) => {
            code.push(import_interface_line(l.name.as_str(), l.filename.as_str()));
            code.push(line(cat3("import { _wxRecverImpl } from \"./", l.name.as_str(), ".ts\";")));
            code.push(line(cat3("import { _wxSenderImpl } from \"./", name, ".ts\";")));
            bind_config_factory(prefix, name, Some(l.name.as_str()))
        },
        None => {
            code.push(line(cat3("import { _wxSenderImpl, _wxRecverImpl } from \"./", name, ".ts\";")));
            bind_config_factory(prefix, name, None)
        },
    };
    code.push(line_str(""));
    code.push(factory);
    Snippet::Concat(code)
}

/// The entry of the shared table for one function.
pub open spec fn table_entry(e: FunctionId) -> Seq<char> {
    quoted_of(e.interface@ + "."@ + e.function@) + ": "@ + decimal_of(e.id as nat) + ","@
}

/// The shared module: the protocol identifier and the table of function IDs,
/// one entry per row of `table`, in order.
pub fn emit_protocol(protocol: &str, table: &Vec<FunctionId>) -> (r: Snippet)
    ensures
        r is Concat,
        r->Concat_0@.len() == 4,
        r->Concat_0@[1] is Line,
        r->Concat_0@[1]->Line_0@ == "export const PROTOCOL = "@ + quoted_of(protocol@) + " as const;"@,
        r->Concat_0@[3] is Block,
        r->Concat_0@[3]->Block_start@ == "export const FuncId = {"@,
        r->Concat_0@[3]->Block_body@.len() == 1,
        r->Concat_0@[3]->Block_body@[0] is Concat,
        lines_are(r->Concat_0@[3]->Block_body@[0]->Concat_0@, table@.map_values(|e: FunctionId| table_entry(e))),
{
    let mut entries: Vec<Snippet> = Vec::new();
    let mut i: usize = 0;
    while i < table.len()
        invariant
            i <= table@.len(),
            lines_are(entries@, table@.subrange(0, i as int).map_values(|e: FunctionId| table_entry(e))),
        decreases table@.len() - i,
    {
        let e = &table[i];
        let key = quoted(cat3(e.interface.as_str(), ".", e.function.as_str()).as_str());
        let text = cat3(key.as_str(), ": ", cat(decimal(e.id as u64).as_str(), ",").as_str());
        let ghost before = entries@;
        entries.push(line(text));
        proof {
            assert(table@.subrange(0, i + 1).map_values(|e: FunctionId| table_entry(e)) =~= table@.subrange(
                0,
                i as int,
            ).map_values(|e: FunctionId| table_entry(e)).push(table_entry(*e)));
            assert(text@ =~= table_entry(*e));
            assert(forall|j: int| 0 <= j < i ==> entries@[j] == before[j]);
        }
        i += 1;
    }
    assert(table@.subrange(0, i as int) =~= table@);
    let mut body: Vec<Snippet> = Vec::new();
    body.push(Snippet::Concat(entries));
    let mut code: Vec<Snippet> = Vec::new();
    code.push(header());
    code.push(line(cat3("export const PROTOCOL = ", quoted(protocol).as_str(), " as const;")));
    code.push(line_str(""));
    code.push(block(String::from_str("export const FuncId = {"), body, String::from_str("} as const;")));
    Snippet::Concat(code)
}

/// One file to write into the output directory.
#[derive(Debug)]
pub struct OutputFile {
    /// The file name within the output directory
    pub name: String,
    pub content: String,
}

/// The name of the implementation module of interface `name`.
pub open spec fn impl_file_name(name: Seq<char>) -> Seq<char> {
    name + ".ts"@
}

/// The name of the bind-config module of interface `name`.
pub open spec fn bus_file_name(name: Seq<char>) -> Seq<char> {
    name + ".bus.ts"@
}

/// One output module, before it is laid out as text.
#[derive(Debug)]
pub struct OutputCode {
    /// The file name within the output directory
    pub name: String,
    pub code: Snippet,
}

/// The partner of interface `name` in the package: the interface it is
/// linked with, when that is one of the package's interfaces.
pub open spec fn partner(pkg: Package, name: Seq<char>) -> Option<Interface> {
    let m = link_map(pkg.linkage@);
    if m.contains_key(name) && has_key(pkg.interfaces@, m[name]) {
        Some(
            pkg.interfaces@[choose|q: int|
                0 <= q < pkg.interfaces@.len() && #[trigger] pkg.interfaces@[q].name@ == m[name]],
        )
    } else {
        None
    }
}

/// The modules of the interface at position `j` come at positions `2j` and
/// `2j + 1`; the second ends with a factory for the interface's partner, if
/// it has one.
pub open spec fn modules_of_interface(out: Seq<OutputCode>, pkg: Package, j: int) -> bool {
    let i = pkg.interfaces@[j];
    let bus = out[2 * j + 1].code;
    &&& out[2 * j].name@ == impl_file_name(i.name@)
    &&& impl_module_ok(out[2 * j].code, i)
    &&& out[2 * j + 1].name@ == bus_file_name(i.name@)
    &&& bus_module_ok(bus, pkg.prefix@, i, partner(pkg, i.name@))
}

/// `code` is the shared module of the package: its table lists every
/// function of the package with its ID, in order.
pub open spec fn protocol_module_of(code: Snippet, pkg: Package) -> bool {
    exists|t: Seq<FunctionId>|
        #[trigger] is_id_table(t, pkg.interfaces@) && code is Concat && code->Concat_0@.len() == 4
            && code->Concat_0@[1] is Line && code->Concat_0@[1]->Line_0@ == "export const PROTOCOL = "@
            + quoted_of(pkg.protocol@) + " as const;"@ && code->Concat_0@[3] is Block
            && code->Concat_0@[3]->Block_body@.len() == 1 && code->Concat_0@[3]->Block_body@[0] is Concat
            && lines_are(code->Concat_0@[3]->Block_body@[0]->Concat_0@, t.map_values(|e: FunctionId| table_entry(e)))
}

/// Every output module of the package: for each interface, in order, its
/// implementation module and its bind-config module; then the shared
/// protocol module.
pub fn emit_code(pkg: &Package) -> (r: Vec<OutputCode>)
    requires
        pkg.wf(),
        flat_pairs(pkg.interfaces@).len() + FIRST_FUNCTION_ID <= u32::MAX,
    ensures
        r@.len() == 2 * pkg.interfaces@.len() + 1,
        forall|i: int| 0 <= i < pkg.interfaces@.len() ==> #[trigger] modules_of_interface(r@, *pkg, i),
        r@[2 * pkg.interfaces@.len() as int].name@ == "protocol.ts"@,
        protocol_module_of(r@[2 * pkg.interfaces@.len() as int].code, *pkg),
{
    let table = make_func_id_map(&pkg.interfaces);
    let mut out: Vec<OutputCode> = Vec::new();
    let mut i: usize = 0;
    while i < pkg.interfaces.len()
        invariant
            i <= pkg.interfaces@.len(),
            pkg.wf(),
            out@.len() == 2 * i,
            forall|j: int| 0 <= j < i ==> #[trigger] modules_of_interface(out@, *pkg, j),
        decreases pkg.interfaces@.len() - i,
    {
        let interface = &pkg.interfaces[i];
        let name = interface.name.as_str();
        let linked = match pkg.linked_name(name) {
            Some(l) => {
                let (k, found) = locate(&pkg.interfaces, l);
                if found {
                    Some(&pkg.interfaces[k])
                } else {
                    None
                }
            },
            None => None,
        };
        proof {
            let m = link_map(pkg.linkage@);
            let is = pkg.interfaces@;
            if m.contains_key(interface.name@) && has_key(is, m[interface.name@]) {
                let q = choose|q: int| 0 <= q < is.len() && #[trigger] is[q].name@ == m[interface.name@];
                assert(is[q].key() == m[interface.name@]);
                assert(linked is Some);
                let k = choose|k: int| 0 <= k < is.len() && is[k] == *linked->0;
                if q != k {
                    lemma_seq_lt_total(is[q].key(), is[q].key());
                    assert(is[k].key() == is[q].key());
                }
            }
        }
        assert(match linked {
            Some(l) => Some(*l),
            None => None,
        } == partner(*pkg, interface.name@));
        let ghost before = out@;
        let impl_file = OutputCode { name: cat(name, ".ts"), code: emit_interface_impl(interface) };
        let bus_file = OutputCode {
            name: cat(name, ".bus.ts"),
            code: emit_interface_bus(pkg.prefix.as_str(), interface, linked),
        };
        let ghost a = impl_file;
        let ghost b = bus_file;
        out.push(impl_file);
        out.push(bus_file);
        assert(out@ == before.push(a).push(b));
        assert forall|j: int| 0 <= j < i + 1 implies #[trigger] modules_of_interface(out@, *pkg, j) by {
            if j < i {
                assert(modules_of_interface(before, *pkg, j));
                assert(out@[2 * j] == before[2 * j]);
                assert(out@[2 * j + 1] == before[2 * j + 1]);
            } else {
                assert(out@[2 * j] == a);
                assert(out@[2 * j + 1] == b);
            }
        }
        i += 1;
    }
    let ghost files = out@;
    let protocol_code = emit_protocol(pkg.protocol.as_str(), &table);
    assert(is_id_table(table@, pkg.interfaces@));
    assert(protocol_module_of(protocol_code, *pkg));
    out.push(OutputCode { name: String::from_str("protocol.ts"), code: protocol_code });
    assert forall|j: int| 0 <= j < pkg.interfaces@.len() implies #[trigger] modules_of_interface(out@, *pkg, j) by {
        assert(modules_of_interface(files, *pkg, j));
        assert(out@[2 * j] == files[2 * j]);
        assert(out@[2 * j + 1] == files[2 * j + 1]);
    }
    out
}

/// Renders every output file of the package: the modules of [`emit_code`],
/// in order, laid out as text, then, unless turned off, a `.gitignore` for
/// the output directory.
pub fn emit(pkg: &Package) -> (r: Vec<OutputFile>)
    requires
        pkg.wf(),
        flat_pairs(pkg.interfaces@).len() + FIRST_FUNCTION_ID <= u32::MAX,
    ensures
        r@.len() == 2 * pkg.interfaces@.len() + 1 + (if pkg.no_gitignore { 0int } else { 1int }),
        forall|i: int|
            0 <= i < 2 * pkg.interfaces@.len() ==> (#[trigger] r@[i]).name@ == if i % 2 == 0 {
                impl_file_name(pkg.interfaces@[i / 2].name@)
            } else {
                bus_file_name(pkg.interfaces@[i / 2].name@)
            },
        r@[2 * pkg.interfaces@.len() as int].name@ == "protocol.ts"@,
        !pkg.no_gitignore ==> r@[2 * pkg.interfaces@.len() as int + 1].name@ == ".gitignore"@,
{
    let modules = emit_code(pkg);
    let ghost ms = modules@;
    let mut out: Vec<OutputFile> = Vec::new();
    let mut k: usize = 0;
    while k < modules.len()
        invariant
            k <= ms.len(),
            ms == modules@,
            out@.len() == k,
            forall|j: int| 0 <= j < k ==> (#[trigger] out@[j]).name@ == ms[j].name@,
        decreases ms.len() - k,
    {
        out.push(OutputFile { name: modules[k].name.clone(), content: modules[k].code.render() });
        k += 1;
    }
    assert forall|i: int| 0 <= i < 2 * pkg.interfaces@.len() implies (#[trigger] out@[i]).name@ == if i % 2 == 0 {
        impl_file_name(pkg.interfaces@[i / 2].name@)
    } else {
        bus_file_name(pkg.interfaces@[i / 2].name@)
    } by {
        assert(modules_of_interface(ms, *pkg, i / 2));
        assert(i == 2 * (i / 2) || i == 2 * (i / 2) + 1);
    }
    if !pkg.no_gitignore {
        out.push(OutputFile { name: String::from_str(".gitignore"), content: emit_gitignore() });
    }
    out
}

/// The `.gitignore` of the output directory: everything in it is ignored.
pub fn emit_gitignore() -> (r: String)
    ensures
        r@ == "# workex output\n*\n"@,
{
    String::from_str("# workex output\n*\n")
}

} // verus!
