//! The command grammar: a forest of named commands, each with its
//! sub-commands, fixed once it is built.

use vstd::prelude::*;
use crate::chars::{
    chars_of, chars_of_each, copy_chars, same_chars, string_of, texts, views,
};

verus! {

/// A command and its sub-commands, as plain values. A command without
/// sub-commands is a leaf: it can be run.
pub struct Tree {
    pub name: Seq<char>,
    pub children: Seq<Tree>,
}

/// The command `name` without sub-commands.
pub open spec fn leaf_tree(name: Seq<char>) -> Tree {
    Tree { name, children: Seq::empty() }
}

/// The command `name` whose sub-commands are the leaves named by `children`.
pub open spec fn group_tree(name: Seq<char>, children: Seq<Seq<char>>) -> Tree {
    Tree { name, children: Seq::new(children.len(), |i: int| leaf_tree(children[i])) }
}

/// The names of the commands of `f`, in order.
pub open spec fn names(f: Seq<Tree>) -> Seq<Seq<char>> {
    Seq::new(f.len(), |i: int| f[i].name)
}

/// The first position at or after `i` whose command is named `token`, or the
/// length of `f` if there is none.
pub open spec fn find_from(f: Seq<Tree>, token: Seq<char>, i: int) -> int
    decreases f.len() - i,
{
    if 0 <= i < f.len() && f[i].name != token {
        find_from(f, token, i + 1)
    } else {
        i
    }
}

/// The position in `f` of the command named exactly `token`, or the length of
/// `f` if there is none.
pub open spec fn find(f: Seq<Tree>, token: Seq<char>) -> int {
    find_from(f, token, 0)
}

/// The commands reached from `f` by following `path` name by name: `f` itself
/// for the empty path, and nothing as soon as a name of the path matches no
/// command.
pub open spec fn children_at(f: Seq<Tree>, path: Seq<Seq<char>>) -> Seq<Tree>
    decreases path.len(),
{
    if path.len() == 0 {
        f
    } else {
        let i = find(f, path[0]);
        if 0 <= i < f.len() {
            children_at(f[i].children, path.skip(1))
        } else {
            Seq::empty()
        }
    }
}

/// Every name holds a character, and no two commands share a name.
pub open spec fn siblings_wf(f: Seq<Tree>) -> bool {
    &&& forall|i: int| 0 <= i < f.len() ==> (#[trigger] f[i]).name.len() > 0
    &&& forall|i: int, j: int|
        0 <= i < j < f.len() ==> (#[trigger] f[i]).name != (#[trigger] f[j]).name
}

/// `siblings_wf` holds of `f` and of the sub-commands of every command
/// below it.
pub open spec fn forest_wf(f: Seq<Tree>) -> bool
    decreases f,
{
    &&& siblings_wf(f)
    &&& forall|i: int| 0 <= i < f.len() ==> forest_wf((#[trigger] f[i]).children)
}

/// What `find_from` returns: a position from `i` to the length of `f`, the
/// first from `i` on that holds the name.
pub proof fn lemma_find_from(f: Seq<Tree>, token: Seq<char>, i: int)
    requires
        0 <= i <= f.len(),
    ensures
        i <= find_from(f, token, i) <= f.len(),
        find_from(f, token, i) < f.len() ==> f[find_from(f, token, i)].name == token,
        forall|k: int| i <= k < find_from(f, token, i) ==> (#[trigger] f[k]).name != token,
    decreases f.len() - i,
{
    if i < f.len() && f[i].name != token {
        lemma_find_from(f, token, i + 1);
    }
}

/// Where names are unique, each command is found under its own name.
pub proof fn lemma_find_own_name(f: Seq<Tree>, i: int)
    requires
        siblings_wf(f),
        0 <= i < f.len(),
    ensures
        find(f, f[i].name) == i,
{
    lemma_find_from(f, f[i].name, 0);
    let k = find(f, f[i].name);
    if k < i {
        assert(f[k].name != f[i].name);
    }
}

/// Following one more name: the commands at `path` followed by `token` are
/// the sub-commands of the command named `token` among those at `path`.
pub proof fn lemma_children_at_push(f: Seq<Tree>, path: Seq<Seq<char>>, token: Seq<char>)
    ensures
        children_at(f, path.push(token)) == children_at(
            children_at(f, path),
            seq![token],
        ),
    decreases path.len(),
{
    if path.len() == 0 {
        assert(path.push(token) == seq![token]);
    } else {
        let i = find(f, path[0]);
        assert(path.push(token)[0] == path[0]);
        assert(path.push(token).skip(1) == path.skip(1).push(token));
        if 0 <= i < f.len() {
            lemma_children_at_push(f[i].children, path.skip(1), token);
        } else {
            assert(seq![token].skip(1).len() == 0);
        }
    }
}

/// Whatever is reached in a well-formed forest is well-formed.
pub proof fn lemma_children_at_wf(f: Seq<Tree>, path: Seq<Seq<char>>)
    requires
        forest_wf(f),
    ensures
        forest_wf(children_at(f, path)),
    decreases path.len(),
{
    if path.len() > 0 {
        let i = find(f, path[0]);
        if 0 <= i < f.len() {
            lemma_children_at_wf(f[i].children, path.skip(1));
        }
    }
}

/// The grammar of the mail client's command line.
pub open spec fn standard_forest() -> Seq<Tree> {
    seq![
        group_tree("account"@, seq!["list"@, "doctor"@]),
        group_tree("folder"@, seq!["add"@, "list"@, "expunge"@, "purge"@, "delete"@]),
        group_tree("envelope"@, seq!["list"@, "thread"@]),
        group_tree("flag"@, seq!["add"@, "set"@, "remove"@]),
        group_tree(
            "message"@,
            seq![
                "read"@,
                "thread"@,
                "write"@,
                "reply"@,
                "forward"@,
                "copy"@,
                "move"@,
                "delete"@,
            ],
        ),
    ]
}

/// What the names of the standard grammar hold.
pub proof fn lemma_standard_names()
    ensures
        "account"@ == seq!['a', 'c', 'c', 'o', 'u', 'n', 't'],
        "folder"@ == seq!['f', 'o', 'l', 'd', 'e', 'r'],
        "envelope"@ == seq!['e', 'n', 'v', 'e', 'l', 'o', 'p', 'e'],
        "flag"@ == seq!['f', 'l', 'a', 'g'],
        "message"@ == seq!['m', 'e', 's', 's', 'a', 'g', 'e'],
        "list"@ == seq!['l', 'i', 's', 't'],
        "doctor"@ == seq!['d', 'o', 'c', 't', 'o', 'r'],
        "add"@ == seq!['a', 'd', 'd'],
        "expunge"@ == seq!['e', 'x', 'p', 'u', 'n', 'g', 'e'],
        "purge"@ == seq!['p', 'u', 'r', 'g', 'e'],
        "delete"@ == seq!['d', 'e', 'l', 'e', 't', 'e'],
        "thread"@ == seq!['t', 'h', 'r', 'e', 'a', 'd'],
        "set"@ == seq!['s', 'e', 't'],
        "remove"@ == seq!['r', 'e', 'm', 'o', 'v', 'e'],
        "read"@ == seq!['r', 'e', 'a', 'd'],
        "write"@ == seq!['w', 'r', 'i', 't', 'e'],
        "reply"@ == seq!['r', 'e', 'p', 'l', 'y'],
        "forward"@ == seq!['f', 'o', 'r', 'w', 'a', 'r', 'd'],
        "copy"@ == seq!['c', 'o', 'p', 'y'],
        "move"@ == seq!['m', 'o', 'v', 'e'],
{
    reveal_strlit("account");
    reveal_strlit("folder");
    reveal_strlit("envelope");
    reveal_strlit("flag");
    reveal_strlit("message");
    reveal_strlit("list");
    reveal_strlit("doctor");
    reveal_strlit("add");
    reveal_strlit("expunge");
    reveal_strlit("purge");
    reveal_strlit("delete");
    reveal_strlit("thread");
    reveal_strlit("set");
    reveal_strlit("remove");
    reveal_strlit("read");
    reveal_strlit("write");
    reveal_strlit("reply");
    reveal_strlit("forward");
    reveal_strlit("copy");
    reveal_strlit("move");
    assert("account"@ =~= seq!['a', 'c', 'c', 'o', 'u', 'n', 't']);
    assert("folder"@ =~= seq!['f', 'o', 'l', 'd', 'e', 'r']);
    assert("envelope"@ =~= seq!['e', 'n', 'v', 'e', 'l', 'o', 'p', 'e']);
    assert("flag"@ =~= seq!['f', 'l', 'a', 'g']);
    assert("message"@ =~= seq!['m', 'e', 's', 's', 'a', 'g', 'e']);
    assert("list"@ =~= seq!['l', 'i', 's', 't']);
    assert("doctor"@ =~= seq!['d', 'o', 'c', 't', 'o', 'r']);
    assert("add"@ =~= seq!['a', 'd', 'd']);
    assert("expunge"@ =~= seq!['e', 'x', 'p', 'u', 'n', 'g', 'e']);
    assert("purge"@ =~= seq!['p', 'u', 'r', 'g', 'e']);
    assert("delete"@ =~= seq!['d', 'e', 'l', 'e', 't', 'e']);
    assert("thread"@ =~= seq!['t', 'h', 'r', 'e', 'a', 'd']);
    assert("set"@ =~= seq!['s', 'e', 't']);
    assert("remove"@ =~= seq!['r', 'e', 'm', 'o', 'v', 'e']);
    assert("read"@ =~= seq!['r', 'e', 'a', 'd']);
    assert("write"@ =~= seq!['w', 'r', 'i', 't', 'e']);
    assert("reply"@ =~= seq!['r', 'e', 'p', 'l', 'y']);
    assert("forward"@ =~= seq!['f', 'o', 'r', 'w', 'a', 'r', 'd']);
    assert("copy"@ =~= seq!['c', 'o', 'p', 'y']);
    assert("move"@ =~= seq!['m', 'o', 'v', 'e']);
}

/// A group of leaves with non-empty, distinct names is well-formed below
/// its own name.
proof fn lemma_group_wf(name: Seq<char>, children: Seq<Seq<char>>)
    requires
        forall|i: int| 0 <= i < children.len() ==> (#[trigger] children[i]).len() > 0,
        forall|i: int, j: int|
            0 <= i < j < children.len() ==> #[trigger] children[i] != #[trigger] children[j],
    ensures
        forest_wf(group_tree(name, children).children),
{
    let f = group_tree(name, children).children;
    assert forall|i: int| 0 <= i < f.len() implies forest_wf((#[trigger] f[i]).children) by {
        assert(f[i].children.len() == 0);
    }
    assert forall|i: int, j: int| 0 <= i < j < f.len() implies (#[trigger] f[i]).name != (
    #[trigger] f[j]).name by {
        assert(f[i].name == children[i]);
        assert(f[j].name == children[j]);
    }
    assert forall|i: int| 0 <= i < f.len() implies (#[trigger] f[i]).name.len() > 0 by {
        assert(f[i].name == children[i]);
    }
}

/// The standard grammar is well-formed.
pub proof fn lemma_standard_wf()
    ensures
        forest_wf(standard_forest()),
{
    lemma_standard_names();
    let f = standard_forest();
    lemma_group_wf("account"@, seq!["list"@, "doctor"@]);
    lemma_group_wf("folder"@, seq!["add"@, "list"@, "expunge"@, "purge"@, "delete"@]);
    lemma_group_wf("envelope"@, seq!["list"@, "thread"@]);
    lemma_group_wf("flag"@, seq!["add"@, "set"@, "remove"@]);
    lemma_group_wf(
        "message"@,
        seq!["read"@, "thread"@, "write"@, "reply"@, "forward"@, "copy"@, "move"@, "delete"@],
    );
    assert(f[0].name.len() == 7 && f[0].name[0] == 'a');
    assert(f[1].name.len() == 6 && f[1].name[0] == 'f');
    assert(f[2].name.len() == 8 && f[2].name[0] == 'e');
    assert(f[3].name.len() == 4 && f[3].name[0] == 'f');
    assert(f[4].name.len() == 7 && f[4].name[0] == 'm');
    assert(siblings_wf(f));
}

/// A command of the grammar with its sub-commands.
pub struct CommandNode {
    name: Vec<char>,
    children: Vec<CommandNode>,
}

/// The command that `node` stands for.
pub closed spec fn tree_of(node: CommandNode) -> Tree
    decreases node, 0nat,
{
    Tree { name: node.name@, children: trees_of(node.children@, node.children@.len()) }
}

/// The commands that the first `n` of `nodes` stand for.
pub closed spec fn trees_of(nodes: Seq<CommandNode>, n: nat) -> Seq<Tree>
    decreases nodes, n,
{
    if n == 0 || n > nodes.len() {
        Seq::empty()
    } else {
        trees_of(nodes, (n - 1) as nat).push(tree_of(nodes[n - 1]))
    }
}

impl View for CommandNode {
    type V = Tree;

    open spec fn view(&self) -> Tree {
        tree_of(*self)
    }
}

/// The commands that `nodes` stand for, in order.
pub open spec fn forest_of(nodes: Seq<CommandNode>) -> Seq<Tree> {
    Seq::new(nodes.len(), |i: int| nodes[i]@)
}

/// `trees_of` takes the nodes one by one.
proof fn lemma_trees_of(nodes: Seq<CommandNode>, n: nat)
    requires
        n <= nodes.len(),
    ensures
        trees_of(nodes, n) == forest_of(nodes.take(n as int)),
    decreases n,
{
    if n > 0 {
        lemma_trees_of(nodes, (n - 1) as nat);
    }
    assert(trees_of(nodes, n) =~= forest_of(nodes.take(n as int)));
}

impl CommandNode {
    /// The command that a node stands for, from the node's parts.
    proof fn lemma_view(self)
        ensures
            self@.name == self.name@,
            self@.children == forest_of(self.children@),
    {
        lemma_trees_of(self.children@, self.children@.len());
        assert(self.children@.take(self.children@.len() as int) == self.children@);
    }

    /// A command without sub-commands.
    pub fn leaf(name: &str) -> (r: CommandNode)
        ensures
            r@ == leaf_tree(name@),
    {
        let r = CommandNode { name: chars_of(name), children: Vec::new() };
        proof {
            r.lemma_view();
            assert(r@.children =~= Seq::<Tree>::empty());
        }
        r
    }

    /// A command with the sub-commands `children`.
    pub fn group(name: &str, children: Vec<CommandNode>) -> (r: CommandNode)
        ensures
            r@ == (Tree { name: name@, children: forest_of(children@) }),
    {
        let r = CommandNode { name: chars_of(name), children };
        proof {
            r.lemma_view();
        }
        r
    }

    /// The command's name.
    pub fn name(&self) -> (r: String)
        ensures
            r@ == self@.name,
    {
        proof {
            self.lemma_view();
        }
        string_of(&self.name)
    }

    /// The characters of the command's name.
    pub fn name_chars(&self) -> (r: &Vec<char>)
        ensures
            r@ == self@.name,
    {
        proof {
            self.lemma_view();
        }
        &self.name
    }

    /// The command's sub-commands.
    pub fn children(&self) -> (r: &[CommandNode])
        ensures
            forest_of(r@) == self@.children,
    {
        proof {
            self.lemma_view();
        }
        self.children.as_slice()
    }

    /// Tells whether the command has no sub-commands.
    pub fn is_leaf(&self) -> (r: bool)
        ensures
            r == (self@.children.len() == 0),
    {
        proof {
            self.lemma_view();
        }
        self.children.len() == 0
    }
}

/// The position in `nodes` of the command named exactly `token`, or the number
/// of `nodes` if there is none.
pub fn position(nodes: &[CommandNode], token: &Vec<char>) -> (r: usize)
    ensures
        r == find(forest_of(nodes@), token@),
        r <= nodes@.len(),
{
    let mut i: usize = 0;
    while i < nodes.len()
        invariant
            i <= nodes@.len(),
            find(forest_of(nodes@), token@) == find_from(forest_of(nodes@), token@, i as int),
        decreases nodes@.len() - i,
    {
        if same_chars(nodes[i].name_chars(), token) {
            return i;
        }
        i += 1;
    }
    i
}

/// The names of `nodes`, in order.
pub fn names_of(nodes: &[CommandNode]) -> (r: Vec<Vec<char>>)
    ensures
        views(r@) == names(forest_of(nodes@)),
{
    let mut out: Vec<Vec<char>> = Vec::new();
    let mut i: usize = 0;
    while i < nodes.len()
        invariant
            i <= nodes@.len(),
            out@.len() == i,
            views(out@) == names(forest_of(nodes@)).take(i as int),
        decreases nodes@.len() - i,
    {
        let name = copy_chars(nodes[i].name_chars());
        proof {
            let all = names(forest_of(nodes@));
            assert forall|k: int| 0 <= k < i + 1 implies views(out@.push(name))[k] == all.take(
                i + 1,
            )[k] by {
                if k < i {
                    assert(views(out@)[k] == all.take(i as int)[k]);
                }
            }
            assert(views(out@.push(name)) =~= all.take(i + 1));
        }
        out.push(name);
        i += 1;
    }
    assert(names(forest_of(nodes@)).take(nodes@.len() as int) == names(forest_of(nodes@)));
    out
}

/// Tells whether every name in `nodes` holds a character and none occurs
/// twice.
fn siblings_are_wf(nodes: &[CommandNode]) -> (r: bool)
    ensures
        r == siblings_wf(forest_of(nodes@)),
{
    let ghost f = forest_of(nodes@);
    let mut i: usize = 0;
    while i < nodes.len()
        invariant
            i <= nodes@.len(),
            f == forest_of(nodes@),
            forall|k: int| 0 <= k < i ==> (#[trigger] f[k]).name.len() > 0,
            forall|k: int, j: int| 0 <= k < j < i ==> (#[trigger] f[k]).name != (#[trigger] f[j]).name,
        decreases nodes@.len() - i,
    {
        if nodes[i].name_chars().len() == 0 {
            assert(f[i as int].name.len() == 0);
            return false;
        }
        let mut j: usize = 0;
        while j < i
            invariant
                j <= i < nodes@.len(),
                f == forest_of(nodes@),
                forall|k: int| 0 <= k < j ==> (#[trigger] f[k]).name != f[i as int].name,
            decreases i - j,
        {
            if same_chars(nodes[j].name_chars(), nodes[i].name_chars()) {
                assert(f[j as int].name == f[i as int].name);
                return false;
            }
            j += 1;
        }
        i += 1;
    }
    true
}

/// Tells whether `nodes` and all that lies below them is well-formed.
fn forest_is_wf(nodes: &[CommandNode]) -> (r: bool)
    ensures
        r == forest_wf(forest_of(nodes@)),
    decreases forest_of(nodes@),
{
    if !siblings_are_wf(nodes) {
        return false;
    }
    let ghost f = forest_of(nodes@);
    let mut i: usize = 0;
    while i < nodes.len()
        invariant
            i <= nodes@.len(),
            f == forest_of(nodes@),
            forall|k: int| 0 <= k < i ==> forest_wf((#[trigger] f[k]).children),
        decreases nodes@.len() - i,
    {
        let below = nodes[i].children();
        assert(forest_of(below@) == f[i as int].children);
        if !forest_is_wf(below) {
            return false;
        }
        i += 1;
    }
    true
}

/// The grammar: the top-level commands, each with what lies below it.
pub struct CommandGrammar {
    roots: Vec<CommandNode>,
}

impl View for CommandGrammar {
    type V = Seq<Tree>;

    closed spec fn view(&self) -> Seq<Tree> {
        forest_of(self.roots@)
    }
}

impl CommandGrammar {
    #[verifier::type_invariant]
    spec fn well_formed(self) -> bool {
        forest_wf(forest_of(self.roots@))
    }

    /// The grammar with the top-level commands `roots`, if every name in it
    /// holds a character and no two commands with the same parent share a
    /// name.
    pub fn new(roots: Vec<CommandNode>) -> (r: Option<CommandGrammar>)
        ensures
            r is Some <==> forest_wf(forest_of(roots@)),
            r is Some ==> r->0@ == forest_of(roots@),
    {
        if forest_is_wf(roots.as_slice()) {
            Some(CommandGrammar { roots })
        } else {
            None
        }
    }

    /// The grammar of the mail client's command line.
    pub fn standard() -> (r: CommandGrammar)
        ensures
            r@ == standard_forest(),
    {
        let account = CommandNode::group(
            "account",
            vec![CommandNode::leaf("list"), CommandNode::leaf("doctor")],
        );
        let folder = CommandNode::group(
            "folder",
            vec![
                CommandNode::leaf("add"),
                CommandNode::leaf("list"),
                CommandNode::leaf("expunge"),
                CommandNode::leaf("purge"),
                CommandNode::leaf("delete"),
            ],
        );
        let envelope = CommandNode::group(
            "envelope",
            vec![CommandNode::leaf("list"), CommandNode::leaf("thread")],
        );
        let flag = CommandNode::group(
            "flag",
            vec![CommandNode::leaf("add"), CommandNode::leaf("set"), CommandNode::leaf("remove")],
        );
        let message = CommandNode::group(
            "message",
            vec![
                CommandNode::leaf("read"),
                CommandNode::leaf("thread"),
                CommandNode::leaf("write"),
                CommandNode::leaf("reply"),
                CommandNode::leaf("forward"),
                CommandNode::leaf("copy"),
                CommandNode::leaf("move"),
                CommandNode::leaf("delete"),
            ],
        );
        proof {
            let f = standard_forest();
            assert(account@.children =~= f[0].children);
            assert(folder@.children =~= f[1].children);
            assert(envelope@.children =~= f[2].children);
            assert(flag@.children =~= f[3].children);
            assert(message@.children =~= f[4].children);
        }
        let roots = vec![account, folder, envelope, flag, message];
        proof {
            assert(forest_of(roots@) =~= standard_forest());
            lemma_standard_wf();
        }
        CommandGrammar { roots }
    }

    /// The top-level commands.
    pub fn roots(&self) -> (r: &[CommandNode])
        ensures
            forest_of(r@) == self@,
            forest_wf(self@),
    {
        proof {
            use_type_invariant(self);
        }
        self.roots.as_slice()
    }

    /// The commands reached by following `path` name by name from the top:
    /// the top-level commands for the empty path, none as soon as a name
    /// matches no command exactly.
    pub fn walk(&self, path: &Vec<Vec<char>>) -> (r: &[CommandNode])
        ensures
            forest_of(r@) == children_at(self@, views(path@)),
            forest_wf(self@),
    {
        let ghost full = views(path@);
        let mut current: &[CommandNode] = self.roots();
        let mut k: usize = 0;
        assert(full.skip(0) == full);
        while k < path.len()
            invariant
                k <= path@.len(),
                full == views(path@),
                forest_wf(self@),
                children_at(self@, full) == children_at(forest_of(current@), full.skip(k as int)),
            decreases path@.len() - k,
        {
            let i = position(current, &path[k]);
            proof {
                assert(full.skip(k as int)[0] == path@[k as int]@);
                assert(full.skip(k as int).skip(1) == full.skip(k + 1));
            }
            if i < current.len() {
                current = current[i].children();
            } else {
                return &[];
            }
            k += 1;
        }
        assert(full.skip(k as int).len() == 0);
        current
    }

    /// The commands reached by following the names of `path` from the top.
    pub fn children_at(&self, path: &Vec<String>) -> (r: &[CommandNode])
        ensures
            forest_of(r@) == children_at(self@, texts(path@)),
    {
        let names = chars_of_each(path);
        self.walk(&names)
    }
}

} // verus!
