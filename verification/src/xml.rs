//! The XML that requests are written as: a model of nodes, the text each
//! node renders to, and writers that append exactly that text.
use vstd::prelude::*;

use crate::text::{chars_of, push_char};

verus! {

/// An XML node. An element with `content == None` is written as an empty
/// tag (`<Name/>`); with `Some(children)` it is written with a start and an
/// end tag around its children, even when there are none.
pub enum XmlNode {
    Element {
        name: Seq<char>,
        attributes: Seq<(Seq<char>, Seq<char>)>,
        content: Option<Seq<XmlNode>>,
    },
    Text(Seq<char>),
}

/// The escaped form of one character: the five XML special characters
/// become entity references, every other character stands for itself.
pub open spec fn escape_char(c: char) -> Seq<char> {
    if c == '<' {
        seq!['&', 'l', 't', ';']
    } else if c == '>' {
        seq!['&', 'g', 't', ';']
    } else if c == '&' {
        seq!['&', 'a', 'm', 'p', ';']
    } else if c == '\'' {
        seq!['&', 'a', 'p', 'o', 's', ';']
    } else if c == '"' {
        seq!['&', 'q', 'u', 'o', 't', ';']
    } else {
        seq![c]
    }
}

/// The escaped form of a text or attribute value.
pub open spec fn escape(s: Seq<char>) -> Seq<char>
    decreases s.len(),
{
    if s.len() == 0 {
        seq![]
    } else {
        escape(s.drop_last()) + escape_char(s.last())
    }
}

/// ` name="value"`, with the value escaped.
pub open spec fn attribute_text(name: Seq<char>, value: Seq<char>) -> Seq<char> {
    seq![' '] + name + seq!['=', '"'] + escape(value) + seq!['"']
}

pub open spec fn render_attributes(a: Seq<(Seq<char>, Seq<char>)>) -> Seq<char>
    decreases a.len(),
{
    if a.len() == 0 {
        seq![]
    } else {
        render_attributes(a.drop_last()) + attribute_text(a.last().0, a.last().1)
    }
}

/// The text of a start tag (`empty == false`) or an empty tag.
pub open spec fn open_tag(name: Seq<char>, a: Seq<(Seq<char>, Seq<char>)>, empty: bool) -> Seq<char> {
    seq!['<'] + name + render_attributes(a) + if empty {
        seq!['/', '>']
    } else {
        seq!['>']
    }
}

pub open spec fn close_tag(name: Seq<char>) -> Seq<char> {
    seq!['<', '/'] + name + seq!['>']
}

/// The text a node is written as.
pub open spec fn render(n: XmlNode) -> Seq<char>
    decreases n,
{
    match n {
        XmlNode::Text(t) => escape(t),
        XmlNode::Element { name, attributes, content } => match content {
            None => open_tag(name, attributes, true),
            Some(children) => open_tag(name, attributes, false) + render_all(children) + close_tag(
                name,
            ),
        },
    }
}

/// The text of a sequence of nodes, one after the other.
pub open spec fn render_all(ns: Seq<XmlNode>) -> Seq<char>
    decreases ns,
{
    if ns.len() == 0 {
        seq![]
    } else {
        render_all(ns.drop_last()) + render(ns.last())
    }
}

/// An element with the given children and no attributes.
pub open spec fn element(name: Seq<char>, children: Seq<XmlNode>) -> XmlNode {
    XmlNode::Element { name, attributes: seq![], content: Some(children) }
}

/// An element holding one text node.
pub open spec fn text_element(name: Seq<char>, text: Seq<char>) -> XmlNode {
    element(name, seq![XmlNode::Text(text)])
}

/// The nodes of an optional text element: one element if present, none
/// otherwise.
pub open spec fn optional_text_element(name: Seq<char>, text: Option<String>) -> Seq<XmlNode> {
    match text {
        Some(t) => seq![text_element(name, t@)],
        None => seq![],
    }
}

/// An attribute list entry for an optional value.
pub open spec fn optional_attribute(name: Seq<char>, value: Option<Seq<char>>) -> Seq<
    (Seq<char>, Seq<char>),
> {
    match value {
        Some(v) => seq![(name, v)],
        None => seq![],
    }
}

pub proof fn lemma_render_element(name: Seq<char>, a: Seq<(Seq<char>, Seq<char>)>, children: Seq<XmlNode>)
    ensures
        render(XmlNode::Element { name, attributes: a, content: Some(children) }) == open_tag(name, a, false)
            + render_all(children) + close_tag(name),
{
}

pub proof fn lemma_render_all_concat(a: Seq<XmlNode>, b: Seq<XmlNode>)
    ensures
        render_all(a + b) == render_all(a) + render_all(b),
    decreases b.len(),
{
    if b.len() == 0 {
        assert(a + b =~= a);
        assert(render_all(a) + render_all(b) =~= render_all(a));
    } else {
        lemma_render_all_concat(a, b.drop_last());
        assert((a + b).drop_last() =~= a + b.drop_last());
        assert((a + b).last() == b.last());
        assert(render_all(a + b) =~= render_all(a) + render_all(b));
    }
}

pub proof fn lemma_render_all_single(n: XmlNode)
    ensures
        render_all(seq![n]) == render(n),
{
    assert(seq![n].drop_last() =~= Seq::<XmlNode>::empty());
    assert(seq![n].last() == n);
    assert(render_all(Seq::<XmlNode>::empty()) == Seq::<char>::empty());
    assert(render_all(seq![n]) == render_all(seq![n].drop_last()) + render(seq![n].last()));
    assert(render_all(seq![n]) =~= render(n));
}

pub proof fn lemma_render_all_push(a: Seq<XmlNode>, n: XmlNode)
    ensures
        render_all(a.push(n)) == render_all(a) + render(n),
{
    assert(a.push(n).drop_last() =~= a);
}

pub proof fn lemma_render_attributes_concat(a: Seq<(Seq<char>, Seq<char>)>, b: Seq<(Seq<char>, Seq<char>)>)
    ensures
        render_attributes(a + b) == render_attributes(a) + render_attributes(b),
    decreases b.len(),
{
    if b.len() == 0 {
        assert(a + b =~= a);
        assert(render_attributes(a) + render_attributes(b) =~= render_attributes(a));
    } else {
        lemma_render_attributes_concat(a, b.drop_last());
        assert((a + b).drop_last() =~= a + b.drop_last());
        assert((a + b).last() == b.last());
        assert(render_attributes(a + b) =~= render_attributes(a) + render_attributes(b));
    }
}

// ----- Writers -----

/// Appends `s` unchanged.
pub(crate) fn write_raw(out: &mut String, s: &str)
    ensures
        final(out)@ == old(out)@ + s@,
{
    out.append(s);
}

/// Appends the escaped form of `s`.
pub(crate) fn write_escaped(out: &mut String, s: &str)
    ensures
        final(out)@ == old(out)@ + escape(s@),
{
    let cs = chars_of(s);
    let ghost start = out@;
    let mut i: usize = 0;
    while i < cs.len()
        invariant
            cs@ == s@,
            i <= cs.len(),
            out@ == start + escape(cs@.take(i as int)),
        decreases cs.len() - i,
    {
        let c = cs[i];
        proof {
            assert(cs@.take(i + 1).drop_last() =~= cs@.take(i as int));
            assert(cs@.take(i + 1).last() == c);
        }
        if c == '<' {
            out.append("&lt;");
        } else if c == '>' {
            out.append("&gt;");
        } else if c == '&' {
            out.append("&amp;");
        } else if c == '\'' {
            out.append("&apos;");
        } else if c == '"' {
            out.append("&quot;");
        } else {
            push_char(out, c);
        }
        proof {
            reveal_strlit("&lt;");
            reveal_strlit("&gt;");
            reveal_strlit("&amp;");
            reveal_strlit("&apos;");
            reveal_strlit("&quot;");
            assert(out@ =~= start + escape(cs@.take(i + 1)));
        }
        i += 1;
    }
    proof {
        assert(cs@.take(i as int) =~= s@);
    }
}

/// Appends the text of a start tag (or, if `empty`, an empty tag) with the
/// given attributes.
pub(crate) fn write_open_tag(out: &mut String, name: &str, attributes: &Vec<(&str, &str)>, empty: bool)
    ensures
        final(out)@ == old(out)@ + open_tag(
            name@,
            attributes@.map_values(|p: (&str, &str)| (p.0@, p.1@)),
            empty,
        ),
{
    let ghost start = out@;
    let ghost av = attributes@.map_values(|p: (&str, &str)| (p.0@, p.1@));
    push_char(out, '<');
    write_raw(out, name);
    let mut i: usize = 0;
    while i < attributes.len()
        invariant
            i <= attributes.len(),
            av == attributes@.map_values(|p: (&str, &str)| (p.0@, p.1@)),
            out@ == start + seq!['<'] + name@ + render_attributes(av.take(i as int)),
        decreases attributes.len() - i,
    {
        let (k, v) = attributes[i];
        proof {
            assert(av.take(i + 1).drop_last() =~= av.take(i as int));
            assert(av.take(i + 1).last() == (k@, v@));
        }
        push_char(out, ' ');
        write_raw(out, k);
        push_char(out, '=');
        push_char(out, '"');
        write_escaped(out, v);
        push_char(out, '"');
        proof {
            assert(out@ =~= start + seq!['<'] + name@ + render_attributes(av.take(i + 1)));
        }
        i += 1;
    }
    proof {
        assert(av.take(i as int) =~= av);
    }
    if empty {
        push_char(out, '/');
    }
    push_char(out, '>');
    proof {
        assert(out@ =~= start + open_tag(name@, av, empty));
    }
}

/// Appends the text of an end tag.
pub(crate) fn write_close_tag(out: &mut String, name: &str)
    ensures
        final(out)@ == old(out)@ + close_tag(name@),
{
    let ghost start = out@;
    push_char(out, '<');
    push_char(out, '/');
    write_raw(out, name);
    push_char(out, '>');
    proof {
        assert(out@ =~= start + close_tag(name@));
    }
}

/// Appends an element holding one text node.
pub(crate) fn write_text_element(out: &mut String, name: &str, text: &str)
    ensures
        final(out)@ == old(out)@ + render(text_element(name@, text@)),
{
    let ghost start = out@;
    let attrs: Vec<(&str, &str)> = Vec::new();
    write_open_tag(out, name, &attrs, false);
    write_escaped(out, text);
    write_close_tag(out, name);
    proof {
        assert(attrs@.map_values(|p: (&str, &str)| (p.0@, p.1@)) =~= seq![]);
        lemma_render_all_single(XmlNode::Text(text@));
        assert(out@ =~= start + render(text_element(name@, text@)));
    }
}


/// Whether `t` begins with `p`.
pub open spec fn starts_with(t: Seq<char>, p: Seq<char>) -> bool {
    t.len() >= p.len() && t.subrange(0, p.len() as int) == p
}

/// Decodes XML's five predefined entity references (`&lt;`, `&gt;`,
/// `&amp;`, `&apos;`, `&quot;`); every other character stands for itself.
pub open spec fn unescape(t: Seq<char>) -> Seq<char>
    decreases t.len(),
{
    if t.len() == 0 {
        seq![]
    } else if starts_with(t, seq!['&', 'l', 't', ';']) {
        seq!['<'] + unescape(t.skip(4))
    } else if starts_with(t, seq!['&', 'g', 't', ';']) {
        seq!['>'] + unescape(t.skip(4))
    } else if starts_with(t, seq!['&', 'a', 'm', 'p', ';']) {
        seq!['&'] + unescape(t.skip(5))
    } else if starts_with(t, seq!['&', 'a', 'p', 'o', 's', ';']) {
        seq!['\''] + unescape(t.skip(6))
    } else if starts_with(t, seq!['&', 'q', 'u', 'o', 't', ';']) {
        seq!['"'] + unescape(t.skip(6))
    } else {
        seq![t[0]] + unescape(t.skip(1))
    }
}

proof fn lemma_escape_front(s: Seq<char>)
    requires
        s.len() > 0,
    ensures
        escape(s) == escape_char(s[0]) + escape(s.drop_first()),
    decreases s.len(),
{
    if s.len() == 1 {
        assert(s.drop_last() =~= Seq::<char>::empty());
        assert(s.drop_first() =~= Seq::<char>::empty());
        assert(escape(s) =~= escape_char(s[0]) + escape(s.drop_first()));
    } else {
        lemma_escape_front(s.drop_last());
        assert(s.drop_last().drop_first() =~= s.drop_first().drop_last());
        assert(s.drop_first().last() == s.last());
        assert(escape(s) =~= escape_char(s[0]) + escape(s.drop_first()));
    }
}

proof fn lemma_unescape_char(c: char, rest: Seq<char>)
    ensures
        unescape(escape_char(c) + rest) == seq![c] + unescape(rest),
{
    let t = escape_char(c) + rest;
    let e = escape_char(c);
    assert(t.skip(e.len() as int) =~= rest);
    assert(t.subrange(0, e.len() as int) =~= e);
    if c == '<' || c == '>' || c == '&' || c == '\'' || c == '"' {
        assert(t[0] == '&');
        assert(t[1] == e[1]);
        assert(t[2] == e[2]);
        if c == '&' {
            assert(!starts_with(t, seq!['&', 'l', 't', ';'])) by {
                assert(t.subrange(0, 4)[1] != 'l');
            }
            assert(!starts_with(t, seq!['&', 'g', 't', ';'])) by {
                assert(t.subrange(0, 4)[1] != 'g');
            }
        } else if c == '\'' {
            assert(!starts_with(t, seq!['&', 'l', 't', ';'])) by {
                assert(t.subrange(0, 4)[1] != 'l');
            }
            assert(!starts_with(t, seq!['&', 'g', 't', ';'])) by {
                assert(t.subrange(0, 4)[1] != 'g');
            }
            assert(!starts_with(t, seq!['&', 'a', 'm', 'p', ';'])) by {
                assert(t.subrange(0, 5)[2] != 'm');
            }
        } else if c == '"' {
            assert(!starts_with(t, seq!['&', 'l', 't', ';'])) by {
                assert(t.subrange(0, 4)[1] != 'l');
            }
            assert(!starts_with(t, seq!['&', 'g', 't', ';'])) by {
                assert(t.subrange(0, 4)[1] != 'g');
            }
            assert(!starts_with(t, seq!['&', 'a', 'm', 'p', ';'])) by {
                assert(t.subrange(0, 5)[1] != 'a');
            }
            assert(!starts_with(t, seq!['&', 'a', 'p', 'o', 's', ';'])) by {
                assert(t.subrange(0, 6)[1] != 'a');
            }
        } else if c == '>' {
            assert(!starts_with(t, seq!['&', 'l', 't', ';'])) by {
                assert(t.subrange(0, 4)[1] != 'l');
            }
        }
    } else {
        assert(t[0] == c);
        assert(t.skip(1) =~= rest);
        assert(!starts_with(t, seq!['&', 'l', 't', ';'])) by {
            if t.len() >= 4 {
                assert(t.subrange(0, 4)[0] == t[0]);
            }
        }
        assert(!starts_with(t, seq!['&', 'g', 't', ';'])) by {
            if t.len() >= 4 {
                assert(t.subrange(0, 4)[0] == t[0]);
            }
        }
        assert(!starts_with(t, seq!['&', 'a', 'm', 'p', ';'])) by {
            if t.len() >= 5 {
                assert(t.subrange(0, 5)[0] == t[0]);
            }
        }
        assert(!starts_with(t, seq!['&', 'a', 'p', 'o', 's', ';'])) by {
            if t.len() >= 6 {
                assert(t.subrange(0, 6)[0] == t[0]);
            }
        }
        assert(!starts_with(t, seq!['&', 'q', 'u', 'o', 't', ';'])) by {
            if t.len() >= 6 {
                assert(t.subrange(0, 6)[0] == t[0]);
            }
        }
    }
}

/// Escaping loses nothing and leaves no markup: the escaped text holds no
/// `<`, `>`, `"` or `'`, and decoding XML's predefined entity references
/// gives the original text back.
pub proof fn law_escape_is_reversible(s: Seq<char>)
    ensures
        unescape(escape(s)) == s,
        forall|i: int| 0 <= i < escape(s).len() ==> {
            let c = #[trigger] escape(s)[i];
            c != '<' && c != '>' && c != '"' && c != '\''
        },
    decreases s.len(),
{
    if s.len() > 0 {
        law_escape_is_reversible(s.drop_first());
        lemma_escape_front(s);
        lemma_unescape_char(s[0], escape(s.drop_first()));
        assert(seq![s[0]] + s.drop_first() =~= s);
        let e = escape_char(s[0]);
        let r = escape(s.drop_first());
        assert forall|i: int| 0 <= i < escape(s).len() implies {
            let c = #[trigger] escape(s)[i];
            c != '<' && c != '>' && c != '"' && c != '\''
        } by {
            if i >= e.len() {
                assert(escape(s)[i] == r[i - e.len()]);
            } else {
                assert(escape(s)[i] == e[i]);
            }
        }
    } else {
        assert(escape(s) =~= Seq::<char>::empty());
    }
}

} // verus!
