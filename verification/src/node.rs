//! A minimal document tree for the configuration files.
//!
//! Rule, device and port files are written in a YAML subset. The
//! surrounding application parses the text and hands the library this
//! tree of plain values; every decision about what a document means is
//! made here and in the loader.

use vstd::prelude::*;

verus! {

/// One node of a parsed configuration document.
#[derive(Debug)]
pub enum Node {
    /// An explicit null, or a value the parser could not classify.
    Null,
    Bool(bool),
    Int(i64),
    Str(String),
    /// A sequence of nodes, in document order.
    List(Vec<Node>),
    /// A mapping, as key/value pairs in document order.
    Dict(Vec<(String, Node)>),
}

/// The string a node carries, if it is a string scalar.
pub open spec fn node_str(n: Node) -> Option<Seq<char>> {
    match n {
        Node::Str(s) => Some(s@),
        _ => None,
    }
}

/// The integer a node carries, if it is an integer scalar.
pub open spec fn node_int(n: Node) -> Option<i64> {
    match n {
        Node::Int(v) => Some(v),
        _ => None,
    }
}

/// The elements of a node, if it is a sequence.
pub open spec fn node_items(n: Node) -> Option<Seq<Node>> {
    match n {
        Node::List(v) => Some(v@),
        _ => None,
    }
}

/// The first value stored under `key`, if any.
pub open spec fn entries_get(es: Seq<(String, Node)>, key: Seq<char>) -> Option<Node>
    decreases es.len(),
{
    if es.len() == 0 {
        None
    } else if es[0].0@ == key {
        Some(es[0].1)
    } else {
        entries_get(es.drop_first(), key)
    }
}

/// The value under `key`, if the node is a mapping that has the key.
pub open spec fn node_get(n: Node, key: Seq<char>) -> Option<Node> {
    match n {
        Node::Dict(es) => entries_get(es@, key),
        _ => None,
    }
}

/// The string under `key`, if present and a string scalar.
pub open spec fn node_get_str(n: Node, key: Seq<char>) -> Option<Seq<char>> {
    match node_get(n, key) {
        Some(v) => node_str(v),
        None => None,
    }
}

/// The integer under `key`, if present and an integer scalar.
pub open spec fn node_get_int(n: Node, key: Seq<char>) -> Option<i64> {
    match node_get(n, key) {
        Some(v) => node_int(v),
        None => None,
    }
}

/// The sequence under `key`, if present and a sequence.
pub open spec fn node_get_items(n: Node, key: Seq<char>) -> Option<Seq<Node>> {
    match node_get(n, key) {
        Some(v) => node_items(v),
        None => None,
    }
}

impl Node {
    /// The string this node carries, if it is a string scalar.
    pub fn as_str(&self) -> (r: Option<&String>)
        ensures
            match r {
                Some(s) => node_str(*self) == Some(s@),
                None => node_str(*self) is None,
            },
    {
        match self {
            Node::Str(s) => Some(s),
            _ => None,
        }
    }

    /// The elements of this node, if it is a sequence.
    pub fn as_list(&self) -> (r: Option<&Vec<Node>>)
        ensures
            match r {
                Some(v) => node_items(*self) == Some(v@),
                None => node_items(*self) is None,
            },
    {
        match self {
            Node::List(v) => Some(v),
            _ => None,
        }
    }

    /// The value under `key`, if this node is a mapping that has it;
    /// the first entry with the key wins.
    pub fn get(&self, key: &str) -> (r: Option<&Node>)
        ensures
            match r {
                Some(v) => node_get(*self, key@) == Some(*v),
                None => node_get(*self, key@) is None,
            },
    {
        let es = match self {
            Node::Dict(es) => es,
            _ => {
                return None;
            },
        };
        let ghost ev = es@;
        let key_string: String = key.to_owned();
        proof {
            assert(ev.skip(0) =~= ev);
        }
        let mut i: usize = 0;
        while i < es.len()
            invariant
                i <= es.len(),
                ev == es@,
                key_string@ == key@,
                node_get(*self, key@) == entries_get(ev, key@),
                entries_get(ev, key@) == entries_get(ev.skip(i as int), key@),
            decreases es.len() - i,
        {
            proof {
                assert(ev.skip(i as int)[0] == ev[i as int]);
                assert(ev.skip(i as int).drop_first() =~= ev.skip((i + 1) as int));
            }
            if es[i].0.eq(&key_string) {
                return Some(&es[i].1);
            }
            i += 1;
        }
        proof {
            assert(ev.skip(es@.len() as int) =~= Seq::<(String, Node)>::empty());
        }
        None
    }

    /// The string under `key`, if present and a string scalar.
    pub fn get_str(&self, key: &str) -> (r: Option<&String>)
        ensures
            match r {
                Some(s) => node_get_str(*self, key@) == Some(s@),
                None => node_get_str(*self, key@) is None,
            },
    {
        match self.get(key) {
            Some(v) => v.as_str(),
            None => None,
        }
    }

    /// The integer under `key`, if present and an integer scalar.
    pub fn get_int(&self, key: &str) -> (r: Option<i64>)
        ensures
            r == node_get_int(*self, key@),
    {
        match self.get(key) {
            Some(v) => match v {
                Node::Int(x) => Some(*x),
                _ => None,
            },
            None => None,
        }
    }

    /// The sequence under `key`, if present and a sequence.
    pub fn get_list(&self, key: &str) -> (r: Option<&Vec<Node>>)
        ensures
            match r {
                Some(v) => node_get_items(*self, key@) == Some(v@),
                None => node_get_items(*self, key@) is None,
            },
    {
        match self.get(key) {
            Some(v) => v.as_list(),
            None => None,
        }
    }
}

} // verus!
