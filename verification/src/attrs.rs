use vstd::prelude::*;

verus! {

/// A weblab annotation, read from a `#[weblab(..)]` attribute or a doc comment.
#[derive(Debug)]
pub enum Attr {
    ProgrammingAssignment,
    Solution,
    SolutionTemplate,
    Test,
    TestTemplate,
    Library,
    Title(String),
    Doc(String),
}

/// The mathematical value of an [`Attr`].
pub enum AttrView {
    ProgrammingAssignment,
    Solution,
    SolutionTemplate,
    Test,
    TestTemplate,
    Library,
    Title(Seq<char>),
    Doc(Seq<char>),
}

impl View for Attr {
    type V = AttrView;

    open spec fn view(&self) -> AttrView {
        match self {
            Attr::ProgrammingAssignment => AttrView::ProgrammingAssignment,
            Attr::Solution => AttrView::Solution,
            Attr::SolutionTemplate => AttrView::SolutionTemplate,
            Attr::Test => AttrView::Test,
            Attr::TestTemplate => AttrView::TestTemplate,
            Attr::Library => AttrView::Library,
            Attr::Title(s) => AttrView::Title(s@),
            Attr::Doc(s) => AttrView::Doc(s@),
        }
    }
}

impl Clone for Attr {
    fn clone(&self) -> (r: Attr)
        ensures
            r@ == self@,
    {
        match self {
            Attr::ProgrammingAssignment => Attr::ProgrammingAssignment,
            Attr::Solution => Attr::Solution,
            Attr::SolutionTemplate => Attr::SolutionTemplate,
            Attr::Test => Attr::Test,
            Attr::TestTemplate => Attr::TestTemplate,
            Attr::Library => Attr::Library,
            Attr::Title(s) => Attr::Title(s.clone()),
            Attr::Doc(s) => Attr::Doc(s.clone()),
        }
    }
}

/// The views of a sequence of annotations.
pub open spec fn attrs_view(v: Seq<Attr>) -> Seq<AttrView> {
    v.map_values(|a: Attr| a@)
}

/// What an attribute of an item means to weblab: annotations to take out of
/// the item, a doc comment that is read and kept, or an attribute that weblab
/// leaves alone.
#[derive(Debug)]
pub enum ParseAttrStatus {
    Attr(Vec<Attr>),
    Doc(Attr),
    NotParsed,
}

/// The mathematical value of a [`ParseAttrStatus`].
pub enum ParseAttrStatusView {
    Attr(Seq<AttrView>),
    Doc(AttrView),
    NotParsed,
}

impl View for ParseAttrStatus {
    type V = ParseAttrStatusView;

    open spec fn view(&self) -> ParseAttrStatusView {
        match self {
            ParseAttrStatus::Attr(v) => ParseAttrStatusView::Attr(attrs_view(v@)),
            ParseAttrStatus::Doc(a) => ParseAttrStatusView::Doc(a@),
            ParseAttrStatus::NotParsed => ParseAttrStatusView::NotParsed,
        }
    }
}

/// An attribute of an item: its tokens as written, and how weblab reads it
/// (`Err` holds the compile error that a malformed weblab attribute yields).
#[derive(Debug)]
pub struct Attribute {
    pub tokens: String,
    pub status: Result<ParseAttrStatus, String>,
}

/// The mathematical value of an [`Attribute`].
pub struct AttributeView {
    pub tokens: Seq<char>,
    pub status: Result<ParseAttrStatusView, Seq<char>>,
}

impl View for Attribute {
    type V = AttributeView;

    open spec fn view(&self) -> AttributeView {
        AttributeView {
            tokens: self.tokens@,
            status: match &self.status {
                Ok(p) => Ok(p@),
                Err(e) => Err(e@),
            },
        }
    }
}

/// The views of a sequence of attributes.
pub open spec fn attributes_view(v: Seq<Attribute>) -> Seq<AttributeView> {
    v.map_values(|a: Attribute| a@)
}

/// Reads `attrs` in order: the annotations found (those of weblab attributes
/// and the doc comments), and the attributes that stay on the item (doc
/// comments and attributes that are not weblab's). The first malformed
/// attribute makes the whole reading fail with its error.
pub open spec fn parse_attributes(attrs: Seq<AttributeView>) -> Result<
    (Seq<AttrView>, Seq<AttributeView>),
    Seq<char>,
>
    decreases attrs.len(),
{
    if attrs.len() == 0 {
        Ok((Seq::empty(), Seq::empty()))
    } else {
        match parse_attributes(attrs.drop_last()) {
            Err(e) => Err(e),
            Ok((parsed, kept)) => {
                let a = attrs.last();
                match a.status {
                    Err(e) => Err(e),
                    Ok(ParseAttrStatusView::Attr(v)) => Ok((parsed + v, kept)),
                    Ok(ParseAttrStatusView::Doc(x)) => Ok((parsed.push(x), kept.push(a))),
                    Ok(ParseAttrStatusView::NotParsed) => Ok((parsed, kept.push(a))),
                }
            },
        }
    }
}

/// Once a prefix of the attributes fails to be read, so do all of them.
proof fn lemma_parse_error_persists(attrs: Seq<AttributeView>, i: int)
    requires
        0 <= i <= attrs.len(),
        parse_attributes(attrs.take(i)) is Err,
    ensures
        parse_attributes(attrs) == parse_attributes(attrs.take(i)),
    decreases attrs.len() - i,
{
    if i < attrs.len() {
        assert(attrs.take(i + 1).drop_last() =~= attrs.take(i));
        lemma_parse_error_persists(attrs, i + 1);
    } else {
        assert(attrs.take(i) =~= attrs);
    }
}

/// Reads the attributes of an item (see [`parse_attributes`]), taking them
/// out of it.
pub fn split_attributes(attrs: Vec<Attribute>) -> (r: Result<(Vec<Attr>, Vec<Attribute>), String>)
    ensures
        match r {
            Ok((parsed, kept)) => parse_attributes(attributes_view(attrs@)) == Ok::<
                (Seq<AttrView>, Seq<AttributeView>),
                Seq<char>,
            >((attrs_view(parsed@), attributes_view(kept@))),
            Err(e) => parse_attributes(attributes_view(attrs@)) == Err::<
                (Seq<AttrView>, Seq<AttributeView>),
                Seq<char>,
            >(e@),
        },
{
    let ghost all = attributes_view(attrs@);
    let count = attrs.len();
    let mut rest = attrs;
    let mut parsed: Vec<Attr> = Vec::new();
    let mut kept: Vec<Attribute> = Vec::new();
    let mut i: usize = 0;
    assert(all.len() == count);
    assert(all.take(0) =~= Seq::<AttributeView>::empty());
    assert(attrs_view(parsed@) =~= Seq::<AttrView>::empty());
    assert(attributes_view(kept@) =~= Seq::<AttributeView>::empty());
    assert(attributes_view(rest@) =~= all.skip(0));
    while rest.len() > 0
        invariant
            i <= all.len(),
            rest@.len() + i == all.len(),
            all.len() <= usize::MAX,
            all == attributes_view(attrs@),
            attributes_view(rest@) == all.skip(i as int),
            parse_attributes(all.take(i as int)) == Ok::<
                (Seq<AttrView>, Seq<AttributeView>),
                Seq<char>,
            >((attrs_view(parsed@), attributes_view(kept@))),
        decreases rest.len(),
    {
        let ghost rest_before = rest@;
        let a = rest.remove(0);
        proof {
            assert(attributes_view(rest_before)[0] == a@);
            assert(all.skip(i as int)[0] == a@);
            assert(all.take(i + 1).drop_last() =~= all.take(i as int));
            assert(all.take(i + 1).last() == a@);
            assert(rest@ =~= rest_before.skip(1));
            assert(attributes_view(rest@) =~= attributes_view(rest_before).skip(1));
            assert(attributes_view(rest@) =~= all.skip(i + 1));
        }
        let ghost a_view = a@;
        let ghost before = parsed@;
        let ghost kbefore = kept@;
        let keep = match &a.status {
            Ok(ParseAttrStatus::Doc(x)) => {
                parsed.push(x.clone());
                assert(attrs_view(parsed@) =~= attrs_view(before).push(x@));
                true
            },
            Ok(ParseAttrStatus::NotParsed) => true,
            _ => false,
        };
        if keep {
            kept.push(a);
            assert(attributes_view(kept@) =~= attributes_view(kbefore).push(a_view));
        } else {
            match a.status {
                Err(e) => {
                    proof {
                        lemma_parse_error_persists(all, i + 1);
                    }
                    return Err(e);
                },
                Ok(ParseAttrStatus::Attr(mut v)) => {
                    let ghost more = v@;
                    parsed.append(&mut v);
                    assert(attrs_view(parsed@) =~= attrs_view(before) + attrs_view(more));
                },
                _ => {},
            }
        }
        i = i + 1;
    }
    assert(all.take(i as int) =~= all);
    Ok((parsed, kept))
}

} // verus!
