//! Display texts, and the textual layout of one tree node: a head followed by
//! its bracketed children.

use vstd::prelude::*;
use vstd::string::*;

verus! {

/// Values with a text to display them by.
pub trait Shown {
    /// The text that displays the value.
    spec fn shown(&self) -> Seq<char>;

    /// Displays the value.
    fn to_string(&self) -> (text: String)
        ensures
            text@ == self.shown(),
    ;
}

/// The texts of `parts`, in order.
pub open spec fn texts(parts: Seq<String>) -> Seq<Seq<char>> {
    Seq::new(parts.len(), |i: int| parts[i]@)
}

/// The `parts` written one after another with `separator` between neighbours.
pub open spec fn join(parts: Seq<Seq<char>>, separator: Seq<char>) -> Seq<char>
    decreases parts.len(),
{
    if parts.len() == 0 {
        Seq::empty()
    } else if parts.len() == 1 {
        parts[0]
    } else {
        join(parts.drop_last(), separator) + separator + parts.last()
    }
}

/// A node's text: the head alone when there are no children, otherwise the head,
/// `open`, the children joined by `separator`, and `close`.
pub open spec fn layout(
    head: Seq<char>,
    children: Seq<Seq<char>>,
    open: Seq<char>,
    separator: Seq<char>,
    close: Seq<char>,
) -> Seq<char> {
    if children.len() == 0 {
        head
    } else {
        head + open + join(children, separator) + close
    }
}

/// The default text of a node: `head` alone, or `head [c1, c2, ...]`.
pub open spec fn node_text(head: Seq<char>, children: Seq<Seq<char>>) -> Seq<char> {
    layout(head, children, " ["@, ", "@, "]"@)
}

/// Joining one more part appends the separator and the part, except after nothing.
pub proof fn lemma_join_push(parts: Seq<Seq<char>>, separator: Seq<char>, part: Seq<char>)
    ensures
        join(parts.push(part), separator) == if parts.len() == 0 {
            part
        } else {
            join(parts, separator) + separator + part
        },
{
    let longer = parts.push(part);
    assert(longer.drop_last() =~= parts);
    assert(longer.last() == part);
}

/// Lays a node out from its head and the texts of its children.
pub fn lay_out(
    head: &str,
    children: &Vec<String>,
    open: &str,
    separator: &str,
    close: &str,
) -> (text: String)
    ensures
        text@ == layout(head@, texts(children@), open@, separator@, close@),
{
    let mut text = String::from_str(head);
    if children.len() == 0 {
        return text;
    }
    text.append(open);
    let mut index: usize = 0;
    while index < children.len()
        invariant
            index <= children.len(),
            text@ == head@ + open@ + join(texts(children@).take(index as int), separator@),
        decreases children.len() - index,
    {
        let ghost done = texts(children@).take(index as int);
        if index > 0 {
            text.append(separator);
        }
        text.append(children[index].as_str());
        proof {
            lemma_join_push(done, separator@, children@[index as int]@);
            assert(texts(children@).take(index + 1) =~= done.push(children@[index as int]@));
        }
        index += 1;
    }
    proof {
        assert(texts(children@).take(index as int) =~= texts(children@));
    }
    text.append(close);
    text
}

/// The default formatting method for a node.
pub fn fmt_node(head_token: &str, children: &Vec<String>) -> (text: String)
    ensures
        text@ == node_text(head_token@, texts(children@)),
{
    lay_out(head_token, children, " [", ", ", "]")
}

/// What is written before the first declared child of a sparse node: nothing
/// where it is the child at index zero, otherwise the elision mark and a space.
pub open spec fn lead(first: int, elision: Seq<char>) -> Seq<char> {
    if first == 0 {
        Seq::empty()
    } else {
        elision + " "@
    }
}

/// What is written between the separator and the space before a declared child
/// of a sparse node: nothing where its index follows on the one before,
/// otherwise the elision mark and the separator.
pub open spec fn gap(previous: int, index: int, separator: Seq<char>, elision: Seq<char>) -> Seq<
    char,
> {
    if index - previous == 1 {
        Seq::empty()
    } else {
        elision + separator
    }
}

/// The declared children of a sparse node, each with its index, written in
/// order with the marks for the indices left out between and before them.
pub open spec fn sparse_join(
    entries: Seq<(int, Seq<char>)>,
    separator: Seq<char>,
    elision: Seq<char>,
) -> Seq<char>
    decreases entries.len(),
{
    if entries.len() == 0 {
        Seq::empty()
    } else if entries.len() == 1 {
        lead(entries[0].0, elision) + entries[0].1
    } else {
        sparse_join(entries.drop_last(), separator, elision) + separator + gap(
            entries[entries.len() - 2].0,
            entries.last().0,
            separator,
            elision,
        ) + " "@ + entries.last().1
    }
}

/// A sparse node's text: the head alone where no child is declared, otherwise
/// the head, `open`, the declared children with their marks, and `close`.
pub open spec fn sparse_layout(
    head: Seq<char>,
    entries: Seq<(int, Seq<char>)>,
    open: Seq<char>,
    separator: Seq<char>,
    elision: Seq<char>,
    close: Seq<char>,
) -> Seq<char> {
    if entries.len() == 0 {
        head
    } else {
        head + open + sparse_join(entries, separator, elision) + close
    }
}

/// The indices and texts of `entries`, in order.
pub open spec fn entry_texts(entries: Seq<(usize, String)>) -> Seq<(int, Seq<char>)> {
    Seq::new(entries.len(), |k: int| (entries[k].0 as int, entries[k].1@))
}

/// Lays a sparse node out from its head and the indices and texts of its
/// declared children.
pub fn lay_out_sparse(
    head: &str,
    entries: &Vec<(usize, String)>,
    open: &str,
    separator: &str,
    elision: &str,
    close: &str,
) -> (text: String)
    ensures
        text@ == sparse_layout(
            head@,
            entry_texts(entries@),
            open@,
            separator@,
            elision@,
            close@,
        ),
{
    let mut text = String::from_str(head);
    if entries.len() == 0 {
        return text;
    }
    text.append(open);
    let mut at: usize = 0;
    while at < entries.len()
        invariant
            at <= entries.len(),
            text@ == head@ + open@ + sparse_join(
                entry_texts(entries@).take(at as int),
                separator@,
                elision@,
            ),
        decreases entries.len() - at,
    {
        let ghost done = entry_texts(entries@).take(at as int);
        let ghost more = entry_texts(entries@).take(at + 1);
        proof {
            assert(more.drop_last() =~= done);
            assert(more.last() == (entries@[at as int].0 as int, entries@[at as int].1@));
        }
        if at == 0 {
            if entries[at].0 != 0 {
                text.append(elision);
                text.append(" ");
            }
        } else {
            text.append(separator);
            let previous: usize = entries[at - 1].0;
            let index: usize = entries[at].0;
            if !(previous < index && index - previous == 1) {
                text.append(elision);
                text.append(separator);
            }
            text.append(" ");
            proof {
                assert(more[more.len() - 2] == done.last());
                assert(done.last().0 == entries@[at - 1].0);
            }
        }
        text.append(entries[at].1.as_str());
        at += 1;
    }
    proof {
        assert(entry_texts(entries@).take(at as int) =~= entry_texts(entries@));
    }
    text.append(close);
    text
}

} // verus!
