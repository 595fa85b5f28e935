//! The abstract syntax tree of the covered grammar subset, and its textual
//! rendering. Each node owns its children exclusively; rendering is specified
//! character by character, so that a rendered script can be parsed back.

use vstd::prelude::*;
use vstd::string::StringExecFns;

verus! {

/// One declared variable of a `var`/`let`/`const` list: a name and an
/// optional initializer expression.
#[derive(Debug)]
pub struct Declaration {
    /// The declared name.
    pub name: String,
    /// The initializer expression, if the declaration has one.
    pub init: Option<Box<Node>>,
}

impl Declaration {
    /// Builds a declaration from its name and optional initializer.
    pub fn new(name: String, init: Option<Box<Node>>) -> (d: Declaration)
        ensures
            d.name@ == name@,
            d.init == init,
    {
        Declaration { name, init }
    }

    /// The declared name.
    pub fn name(&self) -> (r: &String)
        ensures
            r == &self.name,
    {
        &self.name
    }

    /// The initializer expression, if any.
    pub fn init(&self) -> (r: &Option<Box<Node>>)
        ensures
            r == &self.init,
    {
        &self.init
    }
}

/// A `for (head in expr) body` loop, with an optional statement label.
#[derive(Debug)]
pub struct ForInLoop {
    /// The head target: the node each enumerated key is bound to.
    pub variable: Box<Node>,
    /// The enumerated expression.
    pub expr: Box<Node>,
    /// The loop body.
    pub body: Box<Node>,
    /// The loop's statement label, if it has one.
    pub label: Option<String>,
}

/// A `while (cond) body` loop.
#[derive(Debug)]
pub struct WhileLoop {
    /// The loop condition.
    pub cond: Box<Node>,
    /// The loop body.
    pub body: Box<Node>,
}

/// A `break;` or `break label;` statement.
#[derive(Debug)]
pub struct Break {
    /// The target label, if the statement has one.
    pub label: Option<String>,
}

/// A `continue;` or `continue label;` statement.
#[derive(Debug)]
pub struct Continue {
    /// The target label, if the statement has one.
    pub label: Option<String>,
}

/// A `{ ... }` lexical block.
#[derive(Debug)]
pub struct Block {
    /// The statements of the block, in source order.
    pub statements: Vec<Node>,
}

/// A call of a named function: `target(args)`.
#[derive(Debug)]
pub struct Call {
    /// The called name.
    pub target: String,
    /// The argument expressions, in source order.
    pub args: Vec<Node>,
}

/// An assignment to a named binding: `target = value`.
#[derive(Debug)]
pub struct Assign {
    /// The assigned name.
    pub target: String,
    /// The assigned expression.
    pub value: Box<Node>,
}

/// A node of the abstract syntax tree.
#[derive(Debug)]
pub enum Node {
    /// A reference to a named binding.
    Identifier(String),
    /// `true` or `false`.
    BoolLiteral(bool),
    /// A double-quoted string literal, with the quotes stripped.
    StringLiteral(String),
    /// `a + b`.
    Add(Box<Node>, Box<Node>),
    /// `target = value`.
    Assign(Assign),
    /// A `var` declaration list.
    VarDeclList(Vec<Declaration>),
    /// A `let` declaration list.
    LetDeclList(Vec<Declaration>),
    /// A `const` declaration list.
    ConstDeclList(Vec<Declaration>),
    /// A `for`-`in` loop.
    ForInLoop(ForInLoop),
    /// A `while` loop.
    WhileLoop(WhileLoop),
    /// A `break` statement.
    Break(Break),
    /// A `continue` statement.
    Continue(Continue),
    /// A lexical block.
    Block(Block),
    /// A call of a named function.
    Call(Call),
}

/// One formal parameter of a function: a name, possibly a trailing rest
/// (variadic) parameter.
#[derive(Debug)]
pub struct FormalParameter {
    /// The parameter's name.
    pub name: String,
    /// Whether the parameter is a trailing rest parameter.
    pub is_rest: bool,
}

impl FormalParameter {
    /// Builds a formal parameter.
    pub fn new(name: String, is_rest: bool) -> (p: FormalParameter)
        ensures
            p.name@ == name@,
            p.is_rest == is_rest,
    {
        FormalParameter { name, is_rest }
    }

    /// Whether the parameter is a trailing rest parameter.
    pub fn is_rest_param(&self) -> (r: bool)
        ensures
            r == self.is_rest,
    {
        self.is_rest
    }
}

/// A named function: its name, formal parameters and body.
#[derive(Debug)]
pub struct FunctionDecl {
    /// The function's name.
    pub name: String,
    /// The formal parameters, in source order.
    pub parameters: Vec<FormalParameter>,
    /// The function body.
    pub body: StatementList,
}

impl FunctionDecl {
    /// Builds a function declaration.
    pub fn new(name: String, parameters: Vec<FormalParameter>, body: StatementList) -> (f:
        FunctionDecl)
        ensures
            f.name@ == name@,
            f.parameters == parameters,
            f.body == body,
    {
        FunctionDecl { name, parameters, body }
    }

    /// The function's name.
    pub fn name(&self) -> (r: &String)
        ensures
            r == &self.name,
    {
        &self.name
    }
}

/// An ordered list of top-level statements: the result of a parse.
#[derive(Debug)]
pub struct StatementList {
    /// The statements, in source order.
    pub statements: Vec<Node>,
}

// ---------------------------------------------------------------------------
// Rendering specification
// ---------------------------------------------------------------------------

/// The indentation prefix of a statement: four spaces for each level.
pub open spec fn indent_spaces(k: nat) -> Seq<char>
    decreases k,
{
    if k == 0 {
        Seq::empty()
    } else {
        indent_spaces((k - 1) as nat) + "    "@
    }
}

/// The terminator that follows a rendered statement: nothing for braced
/// constructs, a semicolon for everything else.
pub open spec fn stmt_terminator(n: Node) -> Seq<char> {
    match n {
        Node::Block(_) => Seq::empty(),
        Node::WhileLoop(_) => Seq::empty(),
        Node::ForInLoop(_) => Seq::empty(),
        _ => ";"@,
    }
}

/// The source text that a node renders to, given the indentation prefix of
/// the line it starts on.
pub open spec fn node_source(n: Node, pad: Seq<char>) -> Seq<char>
    decreases n, 0nat,
{
    match n {
        Node::Identifier(s) => s@,
        Node::BoolLiteral(b) => if b {
            "true"@
        } else {
            "false"@
        },
        Node::StringLiteral(s) => "\""@ + s@ + "\""@,
        Node::Add(a, b) => node_source(*a, pad) + " + "@ + node_source(*b, pad),
        Node::Assign(a) => a.target@ + " = "@ + node_source(*a.value, pad),
        Node::VarDeclList(ds) => "var "@ + decls_source(ds@, pad),
        Node::LetDeclList(ds) => "let "@ + decls_source(ds@, pad),
        Node::ConstDeclList(ds) => "const "@ + decls_source(ds@, pad),
        Node::ForInLoop(f) => "for ("@ + node_source(*f.variable, pad) + " in "@ + node_source(
            *f.expr,
            pad,
        ) + ") "@ + node_source(*f.body, pad),
        Node::WhileLoop(w) => "while ("@ + node_source(*w.cond, pad) + ") "@ + node_source(
            *w.body,
            pad,
        ),
        Node::Break(b) => match b.label {
            Some(l) => "break "@ + l@,
            None => "break"@,
        },
        Node::Continue(c) => match c.label {
            Some(l) => "continue "@ + l@,
            None => "continue"@,
        },
        Node::Block(b) => "{\n"@ + stmts_source(b.statements@, pad + "    "@) + pad + "}"@,
        Node::Call(c) => c.target@ + "("@ + args_source(c.args@, pad) + ")"@,
    }
}

/// The source text of a statement sequence: each statement on its own line,
/// prefixed by the indentation, with its terminator.
pub open spec fn stmts_source(stmts: Seq<Node>, pad: Seq<char>) -> Seq<char>
    decreases stmts, 1nat,
{
    if stmts.len() == 0 {
        Seq::empty()
    } else {
        stmts_source(stmts.drop_last(), pad) + pad + node_source(stmts.last(), pad)
            + stmt_terminator(stmts.last()) + "\n"@
    }
}

/// The source text of a declaration list, comma-separated.
pub open spec fn decls_source(ds: Seq<Declaration>, pad: Seq<char>) -> Seq<char>
    decreases ds, 1nat,
{
    if ds.len() == 0 {
        Seq::empty()
    } else if ds.len() == 1 {
        decl_source(ds.last(), pad)
    } else {
        decls_source(ds.drop_last(), pad) + ", "@ + decl_source(ds.last(), pad)
    }
}

/// The source text of one declaration: the name, then ` = init` if present.
pub open spec fn decl_source(d: Declaration, pad: Seq<char>) -> Seq<char>
    decreases d, 0nat,
{
    match d.init {
        Some(e) => d.name@ + " = "@ + node_source(*e, pad),
        None => d.name@,
    }
}

/// The source text of an argument list, comma-separated.
pub open spec fn args_source(args: Seq<Node>, pad: Seq<char>) -> Seq<char>
    decreases args, 1nat,
{
    if args.len() == 0 {
        Seq::empty()
    } else if args.len() == 1 {
        node_source(args.last(), pad)
    } else {
        args_source(args.drop_last(), pad) + ", "@ + node_source(args.last(), pad)
    }
}

// ---------------------------------------------------------------------------
// Rendering implementation
// ---------------------------------------------------------------------------

/// Builds the indentation prefix of a statement at the given level.
fn build_indent(indent: usize) -> (r: String)
    ensures
        r@ == indent_spaces(indent as nat),
{
    let mut r = String::new();
    let mut k: usize = 0;
    while k < indent
        invariant
            k <= indent,
            r@ == indent_spaces(k as nat),
        decreases indent - k,
    {
        r.append("    ");
        k = k + 1;
    }
    r
}

impl Node {
    /// Renders the node as source text at the given indentation level.
    pub fn display(&self, indentation: usize) -> (r: String)
        ensures
            r@ == node_source(*self, indent_spaces(indentation as nat)),
    {
        let pad = build_indent(indentation);
        self.display_pad(&pad)
    }

    /// Renders the node, given the indentation prefix of its first line.
    fn display_pad(&self, pad: &String) -> (r: String)
        ensures
            r@ == node_source(*self, pad@),
        decreases *self,
    {
        match self {
            Node::Identifier(s) => s.clone(),
            Node::BoolLiteral(b) => {
                if *b {
                    String::from_str("true")
                } else {
                    String::from_str("false")
                }
            },
            Node::StringLiteral(s) => {
                let mut r = String::from_str("\"");
                r.append(s.as_str());
                r.append("\"");
                r
            },
            Node::Add(a, b) => {
                let mut r = a.display_pad(pad);
                r.append(" + ");
                let rb = b.display_pad(pad);
                r.append(rb.as_str());
                r
            },
            Node::Assign(a) => {
                let mut r = a.target.clone();
                r.append(" = ");
                let rv = a.value.display_pad(pad);
                r.append(rv.as_str());
                r
            },
            Node::VarDeclList(ds) => {
                let mut r = String::from_str("var ");
                let rd = display_decls(ds, pad);
                r.append(rd.as_str());
                r
            },
            Node::LetDeclList(ds) => {
                let mut r = String::from_str("let ");
                let rd = display_decls(ds, pad);
                r.append(rd.as_str());
                r
            },
            Node::ConstDeclList(ds) => {
                let mut r = String::from_str("const ");
                let rd = display_decls(ds, pad);
                r.append(rd.as_str());
                r
            },
            Node::ForInLoop(f) => f.display_pad(pad),
            Node::WhileLoop(w) => {
                let mut r = String::from_str("while (");
                let rc = w.cond.display_pad(pad);
                r.append(rc.as_str());
                r.append(") ");
                let rb = w.body.display_pad(pad);
                r.append(rb.as_str());
                r
            },
            Node::Break(b) => match &b.label {
                Some(l) => {
                    let mut r = String::from_str("break ");
                    r.append(l.as_str());
                    r
                },
                None => String::from_str("break"),
            },
            Node::Continue(c) => match &c.label {
                Some(l) => {
                    let mut r = String::from_str("continue ");
                    r.append(l.as_str());
                    r
                },
                None => String::from_str("continue"),
            },
            Node::Block(b) => {
                let mut deeper = pad.clone();
                deeper.append("    ");
                let mut r = String::from_str("{\n");
                let inner = display_statements(&b.statements, &deeper);
                r.append(inner.as_str());
                r.append(pad.as_str());
                r.append("}");
                r
            },
            Node::Call(c) => {
                let mut r = c.target.clone();
                r.append("(");
                let ra = display_args(&c.args, pad);
                r.append(ra.as_str());
                r.append(")");
                r
            },
        }
    }
}

/// Renders a statement sequence: each statement on its own line, prefixed by
/// the indentation, with its terminator.
fn display_statements(stmts: &Vec<Node>, pad: &String) -> (r: String)
    ensures
        r@ == stmts_source(stmts@, pad@),
    decreases stmts@,
{
    let mut r = String::new();
    let mut i: usize = 0;
    while i < stmts.len()
        invariant
            i <= stmts@.len(),
            r@ == stmts_source(stmts@.take(i as int), pad@),
        decreases stmts@.len() - i,
    {
        r.append(pad.as_str());
        let rs = stmts[i].display_pad(pad);
        r.append(rs.as_str());
        match &stmts[i] {
            Node::Block(_) => (),
            Node::WhileLoop(_) => (),
            Node::ForInLoop(_) => (),
            _ => r.append(";"),
        }
        r.append("\n");
        proof {
            assert(stmts@.take(i + 1).drop_last() =~= stmts@.take(i as int));
            assert(stmts@.take(i + 1).last() == stmts@[i as int]);
        }
        i = i + 1;
    }
    proof {
        assert(stmts@.take(stmts@.len() as int) =~= stmts@);
    }
    r
}

/// Renders a declaration list, comma-separated.
fn display_decls(ds: &Vec<Declaration>, pad: &String) -> (r: String)
    ensures
        r@ == decls_source(ds@, pad@),
    decreases ds@,
{
    let mut r = String::new();
    let mut i: usize = 0;
    while i < ds.len()
        invariant
            i <= ds@.len(),
            r@ == decls_source(ds@.take(i as int), pad@),
        decreases ds@.len() - i,
    {
        if i > 0 {
            r.append(", ");
        }
        let rd = display_decl(&ds[i], pad);
        r.append(rd.as_str());
        proof {
            assert(ds@.take(i + 1).drop_last() =~= ds@.take(i as int));
            assert(ds@.take(i + 1).last() == ds@[i as int]);
        }
        i = i + 1;
    }
    proof {
        assert(ds@.take(ds@.len() as int) =~= ds@);
    }
    r
}

/// Renders one declaration: the name, then ` = init` if present.
fn display_decl(d: &Declaration, pad: &String) -> (r: String)
    ensures
        r@ == decl_source(*d, pad@),
    decreases *d,
{
    match &d.init {
        Some(e) => {
            let mut r = d.name.clone();
            r.append(" = ");
            let re = e.display_pad(pad);
            r.append(re.as_str());
            r
        },
        None => d.name.clone(),
    }
}

/// Renders an argument list, comma-separated.
fn display_args(args: &Vec<Node>, pad: &String) -> (r: String)
    ensures
        r@ == args_source(args@, pad@),
    decreases args@,
{
    let mut r = String::new();
    let mut i: usize = 0;
    while i < args.len()
        invariant
            i <= args@.len(),
            r@ == args_source(args@.take(i as int), pad@),
        decreases args@.len() - i,
    {
        if i > 0 {
            r.append(", ");
        }
        let ra = args[i].display_pad(pad);
        r.append(ra.as_str());
        proof {
            assert(args@.take(i + 1).drop_last() =~= args@.take(i as int));
            assert(args@.take(i + 1).last() == args@[i as int]);
        }
        i = i + 1;
    }
    proof {
        assert(args@.take(args@.len() as int) =~= args@);
    }
    r
}

impl ForInLoop {
    /// Builds a `for`-`in` loop from its head target, enumerated expression
    /// and body, with no label.
    pub fn new(variable: Node, expr: Node, body: Node) -> (f: ForInLoop)
        ensures
            *f.variable == variable,
            *f.expr == expr,
            *f.body == body,
            f.label is None,
    {
        ForInLoop {
            variable: Box::new(variable),
            expr: Box::new(expr),
            body: Box::new(body),
            label: None,
        }
    }

    /// The head target of the loop: the node the current key is bound to.
    pub fn variable(&self) -> (r: &Node)
        ensures
            r == &*self.variable,
    {
        &self.variable
    }

    /// The enumerated expression of the loop.
    pub fn expr(&self) -> (r: &Node)
        ensures
            r == &*self.expr,
    {
        &self.expr
    }

    /// The body of the loop.
    pub fn body(&self) -> (r: &Node)
        ensures
            r == &*self.body,
    {
        &self.body
    }

    /// The loop's statement label, if it has one.
    pub fn label(&self) -> (r: &Option<String>)
        ensures
            r == &self.label,
    {
        &self.label
    }

    /// Gives the loop a statement label.
    pub fn set_label(&mut self, label: String)
        ensures
            final(self).label matches Some(l) && l@ == label@,
            final(self).variable == old(self).variable,
            final(self).expr == old(self).expr,
            final(self).body == old(self).body,
    {
        self.label = Some(label);
    }

    /// Renders the loop as source text at the given indentation level.
    pub fn display(&self, indentation: usize) -> (r: String)
        ensures
            r@ == node_source(
                Node::ForInLoop(self.spec_clone()),
                indent_spaces(indentation as nat),
            ),
    {
        let pad = build_indent(indentation);
        self.display_pad(&pad)
    }

    /// Renders the loop, given the indentation prefix of its first line.
    fn display_pad(&self, pad: &String) -> (r: String)
        ensures
            r@ == node_source(Node::ForInLoop(self.spec_clone()), pad@),
        decreases *self,
    {
        let mut r = String::from_str("for (");
        let rv = self.variable.display_pad(pad);
        r.append(rv.as_str());
        r.append(" in ");
        let re = self.expr.display_pad(pad);
        r.append(re.as_str());
        r.append(") ");
        let rb = self.body.display_pad(pad);
        r.append(rb.as_str());
        r
    }

    /// The loop itself, as a spec-level value.
    pub open spec fn spec_clone(&self) -> ForInLoop {
        *self
    }
}

impl Break {
    /// Builds a labelled `break` statement.
    pub fn new(label: &str) -> (b: Break)
        ensures
            b.label matches Some(l) && l@ == label@,
    {
        Break { label: Some(label.to_owned()) }
    }

    /// Builds an unlabelled `break` statement.
    pub fn new_unlabelled() -> (b: Break)
        ensures
            b.label is None,
    {
        Break { label: None }
    }

    /// The break's target label, if it has one.
    pub fn label(&self) -> (r: &Option<String>)
        ensures
            r == &self.label,
    {
        &self.label
    }
}

impl Continue {
    /// Builds a labelled `continue` statement.
    pub fn new(label: &str) -> (c: Continue)
        ensures
            c.label matches Some(l) && l@ == label@,
    {
        Continue { label: Some(label.to_owned()) }
    }

    /// Builds an unlabelled `continue` statement.
    pub fn new_unlabelled() -> (c: Continue)
        ensures
            c.label is None,
    {
        Continue { label: None }
    }

    /// The continue's target label, if it has one.
    pub fn label(&self) -> (r: &Option<String>)
        ensures
            r == &self.label,
    {
        &self.label
    }
}

impl Block {
    /// Builds a block from its statements.
    pub fn new(statements: Vec<Node>) -> (b: Block)
        ensures
            b.statements == statements,
    {
        Block { statements }
    }

    /// The statements of the block, in source order.
    pub fn statements(&self) -> (r: &Vec<Node>)
        ensures
            r == &self.statements,
    {
        &self.statements
    }
}

impl StatementList {
    /// Builds a statement list from its statements.
    pub fn new(statements: Vec<Node>) -> (l: StatementList)
        ensures
            l.statements == statements,
    {
        StatementList { statements }
    }

    /// The statements, in source order.
    pub fn statements(&self) -> (r: &Vec<Node>)
        ensures
            r == &self.statements,
    {
        &self.statements
    }

    /// Renders the whole list as source text: each top-level statement on its
    /// own line at the given indentation level.
    pub fn display(&self, indentation: usize) -> (r: String)
        ensures
            r@ == stmts_source(self.statements@, indent_spaces(indentation as nat)),
    {
        let pad = build_indent(indentation);
        display_statements(&self.statements, &pad)
    }
}

} // verus!

verus! {

/// Mathematical image of a [`Declaration`].
pub struct DeclarationView {
    /// The declared name.
    pub name: Seq<char>,
    /// The initializer's image, if the declaration has one.
    pub init: Option<Box<NodeView>>,
}

/// Mathematical image of a [`Node`]: strings as character sequences, child
/// lists as sequences.
pub enum NodeView {
    /// A reference to a named binding.
    Identifier(Seq<char>),
    /// `true` or `false`.
    BoolLiteral(bool),
    /// A string literal.
    StringLiteral(Seq<char>),
    /// `a + b`.
    Add(Box<NodeView>, Box<NodeView>),
    /// `target = value`.
    Assign(Seq<char>, Box<NodeView>),
    /// A `var` declaration list.
    VarDeclList(Seq<DeclarationView>),
    /// A `let` declaration list.
    LetDeclList(Seq<DeclarationView>),
    /// A `const` declaration list.
    ConstDeclList(Seq<DeclarationView>),
    /// A `for`-`in` loop: head target, enumerated expression, body, label.
    ForInLoop(Box<NodeView>, Box<NodeView>, Box<NodeView>, Option<Seq<char>>),
    /// A `while` loop: condition and body.
    WhileLoop(Box<NodeView>, Box<NodeView>),
    /// A `break` statement.
    Break(Option<Seq<char>>),
    /// A `continue` statement.
    Continue(Option<Seq<char>>),
    /// A lexical block.
    Block(Seq<NodeView>),
    /// A call of a named function.
    Call(Seq<char>, Seq<NodeView>),
}

/// The image of an optional owned label.
pub open spec fn label_view(l: Option<String>) -> Option<Seq<char>> {
    match l {
        Some(s) => Some(s@),
        None => None,
    }
}

/// The image of a node.
pub open spec fn nview(n: Node) -> NodeView
    decreases n, 0nat,
{
    match n {
        Node::Identifier(s) => NodeView::Identifier(s@),
        Node::BoolLiteral(b) => NodeView::BoolLiteral(b),
        Node::StringLiteral(s) => NodeView::StringLiteral(s@),
        Node::Add(a, b) => NodeView::Add(Box::new(nview(*a)), Box::new(nview(*b))),
        Node::Assign(a) => NodeView::Assign(a.target@, Box::new(nview(*a.value))),
        Node::VarDeclList(ds) => NodeView::VarDeclList(dviews(ds@)),
        Node::LetDeclList(ds) => NodeView::LetDeclList(dviews(ds@)),
        Node::ConstDeclList(ds) => NodeView::ConstDeclList(dviews(ds@)),
        Node::ForInLoop(f) => NodeView::ForInLoop(
            Box::new(nview(*f.variable)),
            Box::new(nview(*f.expr)),
            Box::new(nview(*f.body)),
            label_view(f.label),
        ),
        Node::WhileLoop(w) => NodeView::WhileLoop(
            Box::new(nview(*w.cond)),
            Box::new(nview(*w.body)),
        ),
        Node::Break(b) => NodeView::Break(label_view(b.label)),
        Node::Continue(c) => NodeView::Continue(label_view(c.label)),
        Node::Block(b) => NodeView::Block(nviews(b.statements@)),
        Node::Call(c) => NodeView::Call(c.target@, nviews(c.args@)),
    }
}

/// The images of a node sequence.
pub open spec fn nviews(s: Seq<Node>) -> Seq<NodeView>
    decreases s, 1nat,
{
    if s.len() == 0 {
        Seq::empty()
    } else {
        nviews(s.drop_last()).push(nview(s.last()))
    }
}

/// The image of one declaration.
pub open spec fn dview(d: Declaration) -> DeclarationView
    decreases d, 0nat,
{
    DeclarationView {
        name: d.name@,
        init: match d.init {
            Some(e) => Some(Box::new(nview(*e))),
            None => None,
        },
    }
}

/// The images of a declaration sequence.
pub open spec fn dviews(s: Seq<Declaration>) -> Seq<DeclarationView>
    decreases s, 1nat,
{
    if s.len() == 0 {
        Seq::empty()
    } else {
        dviews(s.drop_last()).push(dview(s.last()))
    }
}

impl View for Node {
    type V = NodeView;

    open spec fn view(&self) -> NodeView {
        nview(*self)
    }
}

impl View for StatementList {
    type V = Seq<NodeView>;

    open spec fn view(&self) -> Seq<NodeView> {
        nviews(self.statements@)
    }
}

/// Mathematical image of a [`FormalParameter`].
pub struct ParamView {
    /// The parameter's name.
    pub name: Seq<char>,
    /// Whether the parameter is a trailing rest parameter.
    pub is_rest: bool,
}

impl View for FormalParameter {
    type V = ParamView;

    open spec fn view(&self) -> ParamView {
        ParamView { name: self.name@, is_rest: self.is_rest }
    }
}

/// The images of a parameter sequence.
pub open spec fn pviews(s: Seq<FormalParameter>) -> Seq<ParamView> {
    Seq::new(s.len(), |i: int| s[i]@)
}

/// Mathematical image of a [`FunctionDecl`].
pub struct FunctionDeclView {
    /// The function's name.
    pub name: Seq<char>,
    /// The formal parameters, in order.
    pub parameters: Seq<ParamView>,
    /// The body's statements, in order.
    pub body: Seq<NodeView>,
}

impl View for FunctionDecl {
    type V = FunctionDeclView;

    open spec fn view(&self) -> FunctionDeclView {
        FunctionDeclView {
            name: self.name@,
            parameters: pviews(self.parameters@),
            body: nviews(self.body.statements@),
        }
    }
}

} // verus!
