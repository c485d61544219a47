//! A parser for the XML shape that nginx-rtmp statistics pages use:
//! elements, raw text content, an optional prolog of processing
//! instructions and declarations, and self-closing tags. Attributes are
//! tolerated but not kept, and a tag whose last character before `>` is `/`
//! counts as self-closing. Entity references are not decoded: content is
//! kept as the document carries it.

use vstd::prelude::*;
use vstd::string::StrSliceExecFns;

verus! {

/// Mathematical model of one parsed element: its tag name, its raw inner
/// character run (child markup included; it is read only on childless
/// elements), and its child elements in document order.
pub struct XmlView {
    pub name: Seq<char>,
    pub text: Seq<char>,
    pub children: Seq<XmlView>,
}

/// One parsed element.
pub struct XmlElem {
    pub name: String,
    pub text: String,
    pub children: Vec<XmlElem>,
}

impl XmlElem {
    /// The model of this element and, recursively, of its children.
    pub open spec fn model(&self) -> XmlView
        decreases self,
        via Self::model_decreases
    {
        XmlView {
            name: self.name@,
            text: self.text@,
            children: Seq::new(
                self.children@.len(),
                |i: int|
                    if 0 <= i && i < self.children@.len() {
                        self.children@[i].model()
                    } else {
                        XmlView { name: Seq::empty(), text: Seq::empty(), children: Seq::empty() }
                    },
            ),
        }
    }

    #[via_fn]
    proof fn model_decreases(&self) {
        assert forall|i: int| 0 <= i < self.children@.len() implies (decreases_to!(
            self => self.children@[i])) by {
            assert(decreases_to!(self => self.children));
            assert(decreases_to!(self.children => self.children@));
            assert(decreases_to!(self.children@ => self.children@[i]));
        }
    }
}

impl View for XmlElem {
    type V = XmlView;

    open spec fn view(&self) -> XmlView {
        self.model()
    }
}

/// Whitespace as XML counts it between tokens.
pub open spec fn is_xml_ws(c: char) -> bool {
    c == ' ' || c == '\t' || c == '\n' || c == '\r'
}

/// A character that may stand in a tag name.
pub open spec fn is_xml_name_char(c: char) -> bool {
    !is_xml_ws(c) && c != '<' && c != '>' && c != '/'
}

/// The first position at or past `i` that holds no whitespace, or the length.
pub open spec fn sp_skip_ws(s: Seq<char>, i: int) -> int
    decreases s.len() - i,
{
    if i < 0 {
        i
    } else if i >= s.len() {
        s.len() as int
    } else if is_xml_ws(s[i]) {
        sp_skip_ws(s, i + 1)
    } else {
        i
    }
}

/// The first position at or past `i` that holds `c`, or the length.
pub open spec fn sp_find(s: Seq<char>, i: int, c: char) -> int
    decreases s.len() - i,
{
    if i < 0 {
        i
    } else if i >= s.len() {
        s.len() as int
    } else if s[i] == c {
        i
    } else {
        sp_find(s, i + 1, c)
    }
}

/// The first position at or past `i` that holds no name character, or the
/// length.
pub open spec fn sp_name_end(s: Seq<char>, i: int) -> int
    decreases s.len() - i,
{
    if i < 0 {
        i
    } else if i >= s.len() {
        s.len() as int
    } else if is_xml_name_char(s[i]) {
        sp_name_end(s, i + 1)
    } else {
        i
    }
}

/// A scan position clamped into the range from one past `i` up to the
/// length, so that every recursive scan makes progress.
pub open spec fn step_idx(s: Seq<char>, x: int, i: int) -> int {
    if x < i + 1 {
        if i + 1 > s.len() {
            s.len() as int
        } else {
            i + 1
        }
    } else if x > s.len() {
        s.len() as int
    } else {
        x
    }
}

/// The position just past the document prolog: whitespace and any run of
/// `<?...>` or `<!...>` constructs, each skipped to its first `>`.
pub open spec fn sp_skip_prolog(s: Seq<char>, i: int) -> int
    decreases s.len() - i,
{
    let j = sp_skip_ws(s, i);
    if 0 <= j && j + 1 < s.len() && s[j] == '<' && (s[j + 1] == '?' || s[j + 1] == '!') {
        sp_skip_prolog(s, step_idx(s, sp_find(s, j, '>') + 1, i))
    } else {
        j
    }
}

/// One element starting at position `i`, which must hold its `<`. Yields
/// the element and the position just past its closing tag, or nothing when
/// the text from `i` on is not a well-formed element.
pub open spec fn sp_elem(s: Seq<char>, i: int) -> Option<(XmlView, int)>
    decreases s.len() - i, 0int,
{
    if !(0 <= i && i + 1 < s.len() && s[i] == '<') {
        None
    } else {
        let ne = sp_name_end(s, i + 1);
        if ne == i + 1 {
            None
        } else {
            let name = s.subrange(i + 1, ne);
            let te = sp_find(s, ne, '>');
            if te >= s.len() {
                None
            } else if te - 1 >= ne && s[te - 1] == '/' {
                Some(
                    (
                        XmlView {
                            name,
                            text: Seq::empty(),
                            children: Seq::empty(),
                        },
                        te + 1,
                    ),
                )
            } else {
                match sp_items(s, step_idx(s, te + 1, i)) {
                    None => None,
                    Some((children, k)) => {
                        let ce = sp_name_end(s, k);
                        if s.subrange(k, ce) != name {
                            None
                        } else {
                            let g = sp_skip_ws(s, ce);
                            if 0 <= g && g < s.len() && s[g] == '>' {
                                Some(
                                    (
                                        XmlView {
                                            name,
                                            text: s.subrange(step_idx(s, te + 1, i), k - 2),
                                            children,
                                        },
                                        g + 1,
                                    ),
                                )
                            } else {
                                None
                            }
                        }
                    },
                }
            }
        }
    }
}

/// The content items of an element from position `i` up to its closing
/// tag: the child elements in order, and the position just past the `</`
/// that opens the closing tag. Text runs are passed over.
pub open spec fn sp_items(s: Seq<char>, i: int) -> Option<(Seq<XmlView>, int)>
    decreases s.len() - i, 1int,
{
    if !(0 <= i && i < s.len()) {
        None
    } else if s[i] == '<' {
        if i + 1 < s.len() && s[i + 1] == '/' {
            Some((Seq::empty(), i + 2))
        } else {
            match sp_elem(s, i) {
                None => None,
                Some((child, j)) => match sp_items(s, step_idx(s, j, i)) {
                    None => None,
                    Some((rest, k)) => Some((seq![child] + rest, k)),
                },
            }
        }
    } else {
        sp_items(s, i + 1)
    }
}

/// The parsed document: its root element, after an optional prolog, with
/// only whitespace allowed to follow it.
pub open spec fn sp_document(s: Seq<char>) -> Option<XmlView> {
    let i = sp_skip_prolog(s, 0);
    match sp_elem(s, i) {
        None => None,
        Some((root, j)) => if sp_skip_ws(s, j) == s.len() {
            Some(root)
        } else {
            None
        },
    }
}

/// Whether two string slices hold the same characters.
pub fn str_eq(a: &str, b: &str) -> (r: bool)
    ensures
        r == (a@ == b@),
{
    let sa = a.to_owned();
    let sb = b.to_owned();
    sa == sb
}

pub(crate) fn xml_ws(c: char) -> (b: bool)
    ensures
        b == is_xml_ws(c),
{
    c == ' ' || c == '\t' || c == '\n' || c == '\r'
}

fn xml_name_char(c: char) -> (b: bool)
    ensures
        b == is_xml_name_char(c),
{
    !xml_ws(c) && c != '<' && c != '>' && c != '/'
}

pub(crate) fn skip_ws(s: &str, i: usize) -> (r: usize)
    requires
        i <= s@.len(),
    ensures
        r == sp_skip_ws(s@, i as int),
        i <= r <= s@.len(),
    decreases s@.len() - i,
{
    let len = s.unicode_len();
    if i >= len {
        return i;
    }
    if xml_ws(s.get_char(i)) {
        skip_ws(s, i + 1)
    } else {
        i
    }
}

fn find_char(s: &str, i: usize, c: char) -> (r: usize)
    requires
        i <= s@.len(),
    ensures
        r == sp_find(s@, i as int, c),
        i <= r <= s@.len(),
    decreases s@.len() - i,
{
    let len = s.unicode_len();
    if i >= len {
        return i;
    }
    if s.get_char(i) == c {
        i
    } else {
        find_char(s, i + 1, c)
    }
}

fn name_end(s: &str, i: usize) -> (r: usize)
    requires
        i <= s@.len(),
    ensures
        r == sp_name_end(s@, i as int),
        i <= r <= s@.len(),
    decreases s@.len() - i,
{
    let len = s.unicode_len();
    if i >= len {
        return i;
    }
    if xml_name_char(s.get_char(i)) {
        name_end(s, i + 1)
    } else {
        i
    }
}

fn skip_prolog(s: &str, i: usize) -> (r: usize)
    requires
        i <= s@.len(),
    ensures
        r == sp_skip_prolog(s@, i as int),
        i <= r <= s@.len(),
    decreases s@.len() - i,
{
    let len = s.unicode_len();
    let j = skip_ws(s, i);
    if j < len && s.get_char(j) == '<' && j + 1 < len {
        let c1 = s.get_char(j + 1);
        if c1 == '?' || c1 == '!' {
            let e = find_char(s, j, '>');
            let next = if e < len {
                e + 1
            } else {
                len
            };
            assert(next == step_idx(s@, sp_find(s@, j as int, '>') + 1, i as int));
            return skip_prolog(s, next);
        }
    }
    j
}

/// One element starting at position `i`, which must hold its `<`: the
/// element and the position just past its closing tag, or `None` when the
/// text from `i` on is not a well-formed element.
pub fn parse_elem(s: &str, i: usize) -> (res: Option<(XmlElem, usize)>)
    requires
        i <= s@.len(),
    ensures
        match res {
            Some(r) => sp_elem(s@, i as int) == Some((r.0@, r.1 as int)) && i < r.1 <= s@.len(),
            None => sp_elem(s@, i as int) is None,
        },
    decreases s@.len() - i, 0int,
{
    let len = s.unicode_len();
    if i >= len || i + 1 >= len || s.get_char(i) != '<' {
        return None;
    }
    let ne = name_end(s, i + 1);
    if ne == i + 1 {
        return None;
    }
    let te = find_char(s, ne, '>');
    if te >= len {
        return None;
    }
    if te - 1 >= ne && s.get_char(te - 1) == '/' {
        let name = s.substring_char(i + 1, ne).to_owned();
        let e = XmlElem { name, text: String::new(), children: Vec::new() };
        assert(e@.children =~= Seq::<XmlView>::empty());
        return Some((e, te + 1));
    }
    assert(te + 1 == step_idx(s@, te + 1 as int, i as int));
    let (children, k) = match parse_items(s, te + 1) {
        Some(r) => r,
        None => {
            return None;
        },
    };
    let ce = name_end(s, k);
    let close_name = s.substring_char(k, ce);
    let name_str = s.substring_char(i + 1, ne);
    if !str_eq(close_name, name_str) {
        return None;
    }
    let g = skip_ws(s, ce);
    if g >= len || s.get_char(g) != '>' {
        return None;
    }
    let name = name_str.to_owned();
    let text = s.substring_char(te + 1, k - 2).to_owned();
    let ghost cv = children@;
    let e = XmlElem { name, text, children };
    assert(e@.children =~= cv.map_values(|c: XmlElem| c@));
    Some((e, g + 1))
}

/// The content items of an element from position `i` up to its closing
/// tag: the child elements in order, and the position just past the `</`
/// that opens the closing tag.
pub fn parse_items(s: &str, i: usize) -> (res: Option<(Vec<XmlElem>, usize)>)
    requires
        i <= s@.len(),
    ensures
        match res {
            Some(r) => sp_items(s@, i as int) == Some(
                (r.0@.map_values(|c: XmlElem| c@), r.1 as int),
            ) && i + 2 <= r.1 <= s@.len(),
            None => sp_items(s@, i as int) is None,
        },
    decreases s@.len() - i, 1int,
{
    let len = s.unicode_len();
    if i >= len {
        return None;
    }
    if s.get_char(i) == '<' {
        if i + 1 < len && s.get_char(i + 1) == '/' {
            let empty: Vec<XmlElem> = Vec::new();
            assert(empty@.map_values(|c: XmlElem| c@) =~= Seq::<XmlView>::empty());
            return Some((empty, i + 2));
        }
        let (child, j) = match parse_elem(s, i) {
            Some(r) => r,
            None => {
                return None;
            },
        };
        assert(j == step_idx(s@, j as int, i as int));
        let (mut rest, k) = match parse_items(s, j) {
            Some(r) => r,
            None => {
                return None;
            },
        };
        let ghost old_rest = rest@;
        rest.insert(0, child);
        assert(rest@.map_values(|c: XmlElem| c@) =~= seq![child@] + old_rest.map_values(
            |c: XmlElem| c@,
        ));
        Some((rest, k))
    } else {
        parse_items(s, i + 1)
    }
}

/// The first element of `cs` whose name is `name`.
pub open spec fn sp_first_named(cs: Seq<XmlView>, name: Seq<char>) -> Option<XmlView>
    decreases cs.len(),
{
    if cs.len() == 0 {
        None
    } else if cs[0].name == name {
        Some(cs[0])
    } else {
        sp_first_named(cs.drop_first(), name)
    }
}

fn find_child_from<'a>(e: &'a XmlElem, i: usize, name: &str) -> (res: Option<&'a XmlElem>)
    requires
        i <= e.children@.len(),
    ensures
        match res {
            Some(c) => sp_first_named(e@.children.skip(i as int), name@) == Some(c@),
            None => sp_first_named(e@.children.skip(i as int), name@) is None,
        },
    decreases e.children@.len() - i,
{
    if i == e.children.len() {
        proof {
            assert(e@.children.skip(i as int) =~= Seq::<XmlView>::empty());
        }
        return None;
    }
    let c = &e.children[i];
    proof {
        assert(*c == e.children@[i as int]);
        assert(e@.children[i as int] == e.children@[i as int]@);
        assert(e@.children.skip(i as int)[0] == e@.children[i as int]);
    }
    if str_eq(c.name.as_str(), name) {
        Some(c)
    } else {
        proof {
            assert(e@.children.skip(i as int).drop_first() =~= e@.children.skip(i as int + 1));
        }
        find_child_from(e, i + 1, name)
    }
}

/// The first child of `e` named `name`, if any.
pub fn find_child<'a>(e: &'a XmlElem, name: &str) -> (res: Option<&'a XmlElem>)
    ensures
        match res {
            Some(c) => sp_first_named(e@.children, name@) == Some(c@),
            None => sp_first_named(e@.children, name@) is None,
        },
{
    proof {
        assert(e@.children.skip(0) =~= e@.children);
    }
    find_child_from(e, 0, name)
}

/// The document's root element, or `None` when the text is not a
/// well-formed document of the shape this parser accepts.
pub fn parse_document(s: &str) -> (res: Option<XmlElem>)
    ensures
        match res {
            Some(root) => sp_document(s@) == Some(root@),
            None => sp_document(s@) is None,
        },
{
    let i = skip_prolog(s, 0);
    let (root, j) = match parse_elem(s, i) {
        Some(r) => r,
        None => {
            return None;
        },
    };
    let g = skip_ws(s, j);
    if g == s.unicode_len() {
        Some(root)
    } else {
        None
    }
}

} // verus!
