//! Parse values and syntax trees, with their mathematical views.

use vstd::prelude::*;
use vstd::string::*;
use crate::state::MpcState;

verus! {

/// A node of a syntax tree.
#[derive(Debug)]
pub struct MpcAst {
    pub tag: String,
    pub contents: String,
    pub state: MpcState,
    pub children_num: i32,
    pub children: Vec<Box<MpcAst>>,
}

/// The value of a syntax tree node: its texts as character sequences and its
/// children as a sequence of such values.
pub struct AstView {
    pub tag: Seq<char>,
    pub contents: Seq<char>,
    pub state: MpcState,
    pub children_num: i32,
    pub children: Seq<AstView>,
}

/// The value that a successful parse produces.
#[derive(Debug)]
pub enum MpcVal {
    /// Nothing of interest.
    Unit,
    /// A single character.
    Char(char),
    /// A text, such as the character or string that a matcher consumed.
    Str(String),
    /// A number, such as a count computed by a fold.
    Int(i64),
    /// A captured cursor position.
    State(MpcState),
    /// A syntax tree.
    Ast(MpcAst),
    /// A value of a kind that the grammar author defines: a number that
    /// names the kind, and the values that it is made of.
    User(u64, Vec<MpcVal>),
}

/// The value of an [`MpcVal`], with texts as character sequences.
pub enum ValView {
    Unit,
    Char(char),
    Str(Seq<char>),
    Int(i64),
    State(MpcState),
    Ast(AstView),
    User(u64, Seq<ValView>),
}

/// The value of a syntax tree.
pub open spec fn ast_view(ast: &MpcAst) -> AstView
    decreases ast,
{
    AstView {
        tag: ast.tag@,
        contents: ast.contents@,
        state: ast.state,
        children_num: ast.children_num,
        children: Seq::new(
            ast.children@.len(),
            |i: int|
                if 0 <= i < ast.children@.len() {
                    ast_view(&*ast.children@[i])
                } else {
                    arbitrary()
                },
        ),
    }
}

impl View for MpcAst {
    type V = AstView;

    open spec fn view(&self) -> AstView {
        ast_view(self)
    }
}

/// The value of a parse value.
pub open spec fn val_view(v: &MpcVal) -> ValView
    decreases v,
{
    match v {
        MpcVal::Unit => ValView::Unit,
        MpcVal::Char(c) => ValView::Char(*c),
        MpcVal::Str(s) => ValView::Str(s@),
        MpcVal::Int(n) => ValView::Int(*n),
        MpcVal::State(s) => ValView::State(*s),
        MpcVal::Ast(a) => ValView::Ast(a@),
        MpcVal::User(kind, parts) => ValView::User(
            *kind,
            Seq::new(
                parts@.len(),
                |i: int|
                    if 0 <= i < parts@.len() {
                        val_view(&parts@[i])
                    } else {
                        arbitrary()
                    },
            ),
        ),
    }
}

impl View for MpcVal {
    type V = ValView;

    open spec fn view(&self) -> ValView {
        val_view(self)
    }
}

impl MpcVal {
    /// A copy of this value.
    pub fn duplicate(&self) -> (copy: MpcVal)
        ensures
            copy@ == self@,
        decreases self,
    {
        match self {
            MpcVal::Unit => MpcVal::Unit,
            MpcVal::Char(c) => MpcVal::Char(*c),
            MpcVal::Str(s) => MpcVal::Str(s.clone()),
            MpcVal::Int(n) => MpcVal::Int(*n),
            MpcVal::State(s) => MpcVal::State(*s),
            MpcVal::Ast(a) => MpcVal::Ast(a.duplicate()),
            MpcVal::User(kind, parts) => {
                let mut copies: Vec<MpcVal> = Vec::new();
                let mut i: usize = 0;
                while i < parts.len()
                    invariant
                        0 <= i <= parts.len(),
                        *self is User,
                        self->User_1 == *parts,
                        copies@.len() == i,
                        forall|j: int| 0 <= j < i ==> (#[trigger] copies@[j])@ == parts@[j]@,
                    decreases parts.len() - i,
                {
                    copies.push(parts[i].duplicate());
                    i = i + 1;
                }
                let copy = MpcVal::User(*kind, copies);
                assert(copy@->User_1 =~= self@->User_1);
                copy
            },
        }
    }
}

/// The values of a list of parse values, in order.
pub open spec fn views_of(xs: Seq<MpcVal>) -> Seq<ValView> {
    xs.map_values(|v: MpcVal| v@)
}

impl MpcAst {
    /// A copy of this tree.
    pub fn duplicate(&self) -> (copy: MpcAst)
        ensures
            copy@ == self@,
        decreases self,
    {
        let mut children: Vec<Box<MpcAst>> = Vec::new();
        let mut i: usize = 0;
        while i < self.children.len()
            invariant
                0 <= i <= self.children.len(),
                children@.len() == i,
                forall|j: int| 0 <= j < i ==> (*children@[j])@ == (*self.children@[j])@,
            decreases self.children.len() - i,
        {
            children.push(Box::new(self.children[i].duplicate()));
            i = i + 1;
        }
        let copy = MpcAst {
            tag: self.tag.clone(),
            contents: self.contents.clone(),
            state: self.state,
            children_num: self.children_num,
            children,
        };
        assert(copy@.children =~= self@.children);
        copy
    }

    /// A leaf node at the origin with the given tag and contents.
    pub fn new(tag: &str, contents: &str) -> (ast: MpcAst)
        ensures
            ast@ == (AstView {
                tag: tag@,
                contents: contents@,
                state: MpcState::origin(),
                children_num: 0,
                children: Seq::empty(),
            }),
    {
        let ast = MpcAst {
            tag: String::from_str(tag),
            contents: String::from_str(contents),
            state: MpcState::default(),
            children_num: 0,
            children: Vec::new(),
        };
        assert(ast@.children =~= Seq::empty());
        ast
    }
}

/// The lines of a node itself behind the indentation `pad`: its tag, and
/// below it its contents between double quotes where there are any, each
/// ended by a line feed.
pub open spec fn node_text(ast: AstView, pad: Seq<char>) -> Seq<char> {
    let tag_line = pad + ast.tag + "\n"@;
    if ast.contents.len() > 0 {
        tag_line + pad + "  \""@ + ast.contents + "\"\n"@
    } else {
        tag_line
    }
}

/// A syntax tree as indented text, depth first: the lines of the node behind
/// the indentation `pad`, then its children in order, each two spaces
/// deeper.
pub open spec fn ast_text(ast: AstView, pad: Seq<char>) -> Seq<char>
    decreases ast, 1int, 0int,
{
    node_text(ast, pad) + children_text(ast, pad + "  "@, 0)
}

/// The children of `ast` from index `i` on as indented text, behind the
/// indentation `pad`.
pub open spec fn children_text(ast: AstView, pad: Seq<char>, i: int) -> Seq<char>
    decreases ast, 0int, ast.children.len() - i,
{
    if 0 <= i < ast.children.len() {
        ast_text(ast.children[i], pad) + children_text(ast, pad, i + 1)
    } else {
        Seq::empty()
    }
}

impl MpcAst {
    /// This tree as indented text: each node on a line of its own with its
    /// tag, its contents on a further line where it has any, and its children
    /// below it, two spaces deeper.
    pub fn render(&self) -> (text: String)
        ensures
            text@ == ast_text(self@, Seq::empty()),
    {
        let mut text = String::new();
        self.render_into(&mut text, "");
        proof {
            reveal_strlit("");
            assert(""@ =~= Seq::<char>::empty());
            assert(text@ =~= ast_text(self@, Seq::empty()));
        }
        text
    }

    /// Appends this tree as indented text to `out`, behind the indentation
    /// `pad`.
    pub fn render_into(&self, out: &mut String, pad: &str)
        ensures
            final(out)@ == old(out)@ + ast_text(self@, pad@),
        decreases self,
    {
        let ghost start = out@;
        let ghost view = self@;
        out.append(pad);
        out.append(self.tag.as_str());
        out.append("\n");
        if !self.contents.as_str().is_empty() {
            out.append(pad);
            out.append("  \"");
            out.append(self.contents.as_str());
            out.append("\"\n");
        }
        assert(out@ =~= start + node_text(view, pad@));
        let mut deeper = String::from_str(pad);
        deeper.append("  ");
        let mut i: usize = 0;
        while i < self.children.len()
            invariant
                0 <= i <= self.children.len(),
                view == self@,
                deeper@ == pad@ + "  "@,
                out@ + children_text(view, deeper@, i as int) == start + ast_text(view, pad@),
            decreases self.children.len() - i,
        {
            let ghost before = out@;
            let ghost child = view.children[i as int];
            assert(child == (*self.children[i as int])@);
            self.children[i].render_into(out, deeper.as_str());
            assert(before + (ast_text(child, deeper@) + children_text(view, deeper@, i + 1))
                =~= out@ + children_text(view, deeper@, i + 1));
            i = i + 1;
        }
        assert(out@ + Seq::<char>::empty() =~= out@);
    }
}

} // verus!
