//! The command tree: nodes with a name, flags, options and subcommands, and
//! the walk from the root along a list of words.

use vstd::prelude::*;

verus! {

/// One flag or option of a command: an optional one-letter form and an
/// optional long form. An option takes a value, a flag does not; the two are
/// written alike.
#[derive(Debug)]
pub struct ArgDef {
    pub short: Option<char>,
    pub long: Option<String>,
}

/// A command of the grammar with what can follow it on the line. No two of
/// its subcommands have the same name.
#[derive(Debug)]
pub struct CommandNode {
    name: String,
    flags: Vec<ArgDef>,
    options: Vec<ArgDef>,
    children: Vec<CommandNode>,
}

/// No two nodes of `nodes` have the same name.
pub open spec fn names_distinct(nodes: Seq<CommandNode>) -> bool {
    forall|i: int, j: int|
        0 <= i < j < nodes.len() ==> nodes[i].spec_name() != nodes[j].spec_name()
}

/// Some node of `nodes` is called `name`.
pub open spec fn has_name(nodes: Seq<CommandNode>, name: Seq<char>) -> bool {
    exists|i: int| 0 <= i < nodes.len() && #[trigger] nodes[i].spec_name() == name
}

/// The first node of `nodes` that is called `name`.
pub open spec fn child_named(nodes: Seq<CommandNode>, name: Seq<char>) -> Option<CommandNode>
    decreases nodes.len(),
{
    if nodes.len() == 0 {
        None
    } else if nodes[0].spec_name() == name {
        Some(nodes[0])
    } else {
        child_named(nodes.drop_first(), name)
    }
}

/// The node that `tokens` lead to from `node`: each word in turn names a
/// subcommand of the node reached so far, and the walk fails at the first
/// word that names none.
pub open spec fn resolve(node: CommandNode, tokens: Seq<Seq<char>>) -> Option<CommandNode>
    decreases tokens.len(),
{
    if tokens.len() == 0 {
        Some(node)
    } else {
        match child_named(node.spec_children(), tokens[0]) {
            None => None,
            Some(child) => resolve(child, tokens.drop_first()),
        }
    }
}

/// A word names a child exactly where some child has that name; the child
/// it names has the name and is one of the children.
pub proof fn lemma_child_named(nodes: Seq<CommandNode>, name: Seq<char>)
    ensures
        child_named(nodes, name) is Some <==> has_name(nodes, name),
        child_named(nodes, name) matches Some(child) ==> child.spec_name() == name
            && nodes.contains(child),
    decreases nodes.len(),
{
    if nodes.len() > 0 {
        let rest = nodes.drop_first();
        lemma_child_named(rest, name);
        if nodes[0].spec_name() != name {
            if has_name(nodes, name) {
                let i = choose|i: int| 0 <= i < nodes.len() && #[trigger] nodes[i].spec_name() == name;
                assert(rest[i - 1].spec_name() == name);
            }
            if has_name(rest, name) {
                let i = choose|i: int| 0 <= i < rest.len() && #[trigger] rest[i].spec_name() == name;
                assert(nodes[i + 1].spec_name() == name);
            }
            match child_named(rest, name) {
                Some(child) => {
                    let i = choose|i: int| 0 <= i < rest.len() && rest[i] == child;
                    assert(nodes[i + 1] == child);
                },
                None => {},
            }
        } else {
            assert(nodes[0].spec_name() == name);
        }
    }
}

/// Among children of different names, the child that a word names is the
/// only one of that name.
pub proof fn lemma_named_child_is_unique(nodes: Seq<CommandNode>, name: Seq<char>, at: int)
    requires
        names_distinct(nodes),
        0 <= at < nodes.len(),
        nodes[at].spec_name() == name,
    ensures
        child_named(nodes, name) == Some(nodes[at]),
    decreases nodes.len(),
{
    if at > 0 {
        let rest = nodes.drop_first();
        assert(nodes[0].spec_name() != nodes[at].spec_name());
        assert forall|i: int, j: int| 0 <= i < j < rest.len() implies rest[i].spec_name()
            != rest[j].spec_name() by {
            assert(rest[i] == nodes[i + 1] && rest[j] == nodes[j + 1]);
        }
        lemma_named_child_is_unique(rest, name, at - 1);
    }
}

/// What an optional reference refers to.
pub open spec fn referent(found: Option<&CommandNode>) -> Option<CommandNode> {
    match found {
        None => None,
        Some(node) => Some(*node),
    }
}

impl CommandNode {
    #[verifier::type_invariant]
    spec fn siblings_differ(self) -> bool {
        names_distinct(self.children@)
    }

    pub closed spec fn spec_name(self) -> Seq<char> {
        self.name@
    }

    pub closed spec fn spec_flags(self) -> Seq<ArgDef> {
        self.flags@
    }

    pub closed spec fn spec_options(self) -> Seq<ArgDef> {
        self.options@
    }

    pub closed spec fn spec_children(self) -> Seq<CommandNode> {
        self.children@
    }

    /// A command called `name` with nothing under it.
    pub fn new(name: String) -> (node: CommandNode)
        ensures
            node.spec_name() == name@,
            node.spec_flags().len() == 0,
            node.spec_options().len() == 0,
            node.spec_children().len() == 0,
    {
        CommandNode { name, flags: Vec::new(), options: Vec::new(), children: Vec::new() }
    }

    /// The node a tree starts at. It has no name: no word leads to it.
    pub fn root() -> (node: CommandNode)
        ensures
            node.spec_name().len() == 0,
            node.spec_flags().len() == 0,
            node.spec_options().len() == 0,
            node.spec_children().len() == 0,
    {
        CommandNode {
            name: String::new(),
            flags: Vec::new(),
            options: Vec::new(),
            children: Vec::new(),
        }
    }

    /// The node without its name, as the node that a tree starts at.
    pub fn into_root(self) -> (node: CommandNode)
        ensures
            node.spec_name().len() == 0,
            node.spec_flags() == self.spec_flags(),
            node.spec_options() == self.spec_options(),
            node.spec_children() == self.spec_children(),
    {
        proof {
            use_type_invariant(&self);
        }
        let CommandNode { name: _, flags, options, children } = self;
        CommandNode { name: String::new(), flags, options, children }
    }

    pub fn name(&self) -> (name: &String)
        ensures
            name@ == self.spec_name(),
    {
        &self.name
    }

    pub fn flags(&self) -> (flags: &Vec<ArgDef>)
        ensures
            flags@ == self.spec_flags(),
    {
        &self.flags
    }

    pub fn options(&self) -> (options: &Vec<ArgDef>)
        ensures
            options@ == self.spec_options(),
    {
        &self.options
    }

    pub fn children(&self) -> (children: &Vec<CommandNode>)
        ensures
            children@ == self.spec_children(),
            names_distinct(children@),
    {
        proof {
            use_type_invariant(self);
        }
        &self.children
    }

    /// The node with `flag` added after the flags already there.
    pub fn flag(self, flag: ArgDef) -> (node: CommandNode)
        ensures
            node.spec_flags() == self.spec_flags().push(flag),
            node.spec_name() == self.spec_name(),
            node.spec_options() == self.spec_options(),
            node.spec_children() == self.spec_children(),
    {
        proof {
            use_type_invariant(&self);
        }
        let CommandNode { name, mut flags, options, children } = self;
        flags.push(flag);
        CommandNode { name, flags, options, children }
    }

    /// The node with `option` added after the options already there.
    pub fn option(self, option: ArgDef) -> (node: CommandNode)
        ensures
            node.spec_options() == self.spec_options().push(option),
            node.spec_name() == self.spec_name(),
            node.spec_flags() == self.spec_flags(),
            node.spec_children() == self.spec_children(),
    {
        proof {
            use_type_invariant(&self);
        }
        let CommandNode { name, flags, mut options, children } = self;
        options.push(option);
        CommandNode { name, flags, options, children }
    }

    /// Whether a subcommand of this node is called `name`.
    pub fn has_child(&self, name: &String) -> (yes: bool)
        ensures
            yes == has_name(self.spec_children(), name@),
    {
        let mut i: usize = 0;
        while i < self.children.len()
            invariant
                i <= self.children.len(),
                forall|k: int| 0 <= k < i ==> self.children@[k].spec_name() != name@,
            decreases self.children.len() - i,
        {
            if self.children[i].name == *name {
                assert(self.children@[i as int].spec_name() == name@);
                return true;
            }
            i = i + 1;
        }
        false
    }

    /// The node with `child` added after the subcommands already there. Where
    /// one of them has the child's name already, the node comes back as it
    /// was, as an error.
    pub fn subcommand(self, child: CommandNode) -> (added: Result<CommandNode, CommandNode>)
        ensures
            has_name(self.spec_children(), child.spec_name()) ==> added == Err::<
                CommandNode,
                CommandNode,
            >(self),
            !has_name(self.spec_children(), child.spec_name()) ==> added is Ok && {
                let node = added->Ok_0;
                &&& node.spec_children() == self.spec_children().push(child)
                &&& node.spec_name() == self.spec_name()
                &&& node.spec_flags() == self.spec_flags()
                &&& node.spec_options() == self.spec_options()
            },
    {
        proof {
            use_type_invariant(&self);
        }
        if self.has_child(&child.name) {
            return Err(self);
        }
        let CommandNode { name, flags, options, mut children } = self;
        children.push(child);
        Ok(CommandNode { name, flags, options, children })
    }
}

/// The first subcommand of `node` that is called `name`.
pub fn find_child<'p>(node: &'p CommandNode, name: &String) -> (found: Option<&'p CommandNode>)
    ensures
        referent(found) == child_named(node.spec_children(), name@),
{
    let mut i: usize = 0;
    assert(node.children@.skip(0) == node.children@);
    while i < node.children.len()
        invariant
            i <= node.children.len(),
            child_named(node.children@, name@) == child_named(
                node.children@.skip(i as int),
                name@,
            ),
        decreases node.children.len() - i,
    {
        let ghost rest = node.children@.skip(i as int);
        assert(rest[0] == node.children@[i as int]);
        assert(rest.drop_first() == node.children@.skip(i + 1));
        if node.children[i].name == *name {
            return Some(&node.children[i]);
        }
        i = i + 1;
    }
    None
}

} // verus!
