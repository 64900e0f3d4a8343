//! A description of generated source code as lines, indented blocks and
//! separated lists, laid out as text by the `codize` crate.
use vstd::prelude::*;

verus! {

/// Generated source code.
#[derive(Debug)]
pub enum Snippet {
    /// One line.
    Line(String),
    /// `start`, then `body` indented, then `end`.
    Block {
        start: String,
        body: Vec<Snippet>,
        end: String,
        /// Starts on the last line of what comes before.
        connected: bool,
        /// Never laid out on one line.
        never_inlined: bool,
    },
    /// The parts one after another.
    Concat(Vec<Snippet>),
    /// The items separated by `sep`, on one line.
    List { sep: String, items: Vec<Snippet> },
}

#[verifier::external_type_specification]
#[verifier::external_body]
pub struct ExCode(codize::Code);

#[verifier::external_type_specification]
#[verifier::external_body]
pub struct ExBlock(codize::Block);

#[verifier::external_type_specification]
#[verifier::external_body]
pub struct ExList(codize::List);

/// Relies on `codize::Code::from(String)`: the line as code.
#[verifier::external_body]
fn codize_line(s: String) -> codize::Code {
    codize::Code::from(s)
}

/// Relies on `codize::Block::new`: a block of `start`, `body` and `end`.
#[verifier::external_body]
fn codize_block(start: String, body: Vec<codize::Code>, end: String) -> codize::Block {
    codize::Block::new(start, body, end)
}

/// Relies on `codize::Block::connected`.
#[verifier::external_body]
fn codize_block_connected(b: codize::Block) -> codize::Block {
    b.connected()
}

/// Relies on `codize::Block::never_inlined`.
#[verifier::external_body]
fn codize_block_never_inlined(b: codize::Block) -> codize::Block {
    b.never_inlined()
}

/// Relies on `codize::Code::from(Block)`.
#[verifier::external_body]
fn codize_from_block(b: codize::Block) -> codize::Code {
    codize::Code::from(b)
}

/// Relies on `codize::Concat::new`: the parts one after another.
#[verifier::external_body]
fn codize_concat(parts: Vec<codize::Code>) -> codize::Code {
    codize::Code::Concat(codize::Concat::new(parts))
}

/// Relies on `codize::List::new`: the items with a separator.
#[verifier::external_body]
fn codize_list(sep: String, items: Vec<codize::Code>) -> codize::List {
    codize::List::new(sep, items)
}

/// Relies on `codize::List::inlined`.
#[verifier::external_body]
fn codize_list_inlined(l: codize::List) -> codize::List {
    l.inlined()
}

/// Relies on `codize::Code::from(List)`.
#[verifier::external_body]
fn codize_from_list(l: codize::List) -> codize::Code {
    codize::Code::from(l)
}

/// Relies on codize's `Display` for `Code`: the code laid out as text.
#[verifier::external_body]
fn codize_render(c: &codize::Code) -> String {
    c.to_string()
}

fn to_codize_all(v: &Vec<Snippet>) -> Vec<codize::Code>
    decreases v, 1nat,
{
    let mut out: Vec<codize::Code> = Vec::new();
    let mut i: usize = 0;
    while i < v.len()
        decreases v@.len() - i,
    {
        proof {
            vstd::std_specs::vec::axiom_vec_index_decreases(*v, i as int);
        }
        out.push(to_codize(&v[i]));
        i += 1;
    }
    out
}

fn to_codize(c: &Snippet) -> codize::Code
    decreases c, 0nat,
{
    match c {
        Snippet::Line(s) => codize_line(s.clone()),
        Snippet::Block { start, body, end, connected, never_inlined } => {
            let parts = to_codize_all(body);
            let mut b = codize_block(start.clone(), parts, end.clone());
            if *connected {
                b = codize_block_connected(b);
            }
            if *never_inlined {
                b = codize_block_never_inlined(b);
            }
            codize_from_block(b)
        },
        Snippet::Concat(parts) => codize_concat(to_codize_all(parts)),
        Snippet::List { sep, items } => {
            let out = to_codize_all(items);
            codize_from_list(codize_list_inlined(codize_list(sep.clone(), out)))
        },
    }
}

impl Snippet {
    /// The code laid out as text.
    pub fn render(&self) -> String {
        codize_render(&to_codize(self))
    }
}

} // verus!
