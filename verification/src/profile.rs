//! Profile preprocessing: before structural parsing, every element (and its
//! whole subtree) whose `profile` attribute differs from the active build
//! profile is elided; elements without the attribute are always kept. The
//! output is re-parseable text with attributes re-emitted verbatim.

use vstd::prelude::*;

use crate::text::chars_to_string;
use crate::text::push_str;
use crate::text::str_to_chars;
use crate::xml::XmlEvent;
use crate::xml::XmlEventView;
use crate::xml::spec_tokenize;
use crate::xml::tokenize;

verus! {

/// The value of the first `profile` attribute, if any.
pub open spec fn spec_profile_attr(attrs: Seq<(Seq<char>, Seq<char>)>) -> Option<Seq<char>>
    decreases attrs.len(),
{
    if attrs.len() == 0 {
        None
    } else if attrs[0].0 == "profile"@ {
        Some(attrs[0].1)
    } else {
        spec_profile_attr(attrs.drop_first())
    }
}

/// The text of one re-emitted attribute: ` name="value"`.
pub open spec fn spec_render_attr(a: (Seq<char>, Seq<char>)) -> Seq<char> {
    seq![' '] + a.0 + "=\""@ + a.1 + seq!['"']
}

/// The re-emitted attribute list.
pub open spec fn spec_render_attrs(attrs: Seq<(Seq<char>, Seq<char>)>) -> Seq<char>
    decreases attrs.len(),
{
    if attrs.len() == 0 {
        Seq::empty()
    } else {
        spec_render_attrs(attrs.drop_last()) + spec_render_attr(attrs.last())
    }
}

/// A re-emitted opening tag.
pub open spec fn spec_render_start(name: Seq<char>, attrs: Seq<(Seq<char>, Seq<char>)>) -> Seq<
    char,
> {
    seq!['<'] + name + spec_render_attrs(attrs) + seq!['>']
}

/// A re-emitted self-closing tag.
pub open spec fn spec_render_empty(name: Seq<char>, attrs: Seq<(Seq<char>, Seq<char>)>) -> Seq<
    char,
> {
    seq!['<'] + name + spec_render_attrs(attrs) + "/>"@
}

/// A re-emitted closing tag.
pub open spec fn spec_render_end(name: Seq<char>) -> Seq<char> {
    "</"@ + name + seq!['>']
}

/// The filtered re-emission of an event list: `depth` counts how deep
/// scanning currently is inside an elided subtree.
pub open spec fn spec_preprocess_events(
    evs: Seq<XmlEventView>,
    depth: int,
    profile: Seq<char>,
) -> Seq<char>
    decreases evs.len(),
{
    if evs.len() == 0 {
        Seq::empty()
    } else {
        let rest = evs.drop_first();
        match evs[0] {
            XmlEventView::Start { name, attrs } => {
                let nd = if depth > 0 {
                    depth + 1
                } else if spec_profile_attr(attrs) matches Some(p) && p != profile {
                    1int
                } else {
                    0int
                };
                if nd == 0 {
                    spec_render_start(name, attrs) + spec_preprocess_events(rest, nd, profile)
                } else {
                    spec_preprocess_events(rest, nd, profile)
                }
            },
            XmlEventView::Empty { name, attrs } => {
                let keep = depth == 0 && (match spec_profile_attr(attrs) {
                    Some(p) => p == profile,
                    None => true,
                });
                if keep {
                    spec_render_empty(name, attrs) + spec_preprocess_events(rest, depth, profile)
                } else {
                    spec_preprocess_events(rest, depth, profile)
                }
            },
            XmlEventView::Text { text } => {
                if depth == 0 {
                    text + spec_preprocess_events(rest, depth, profile)
                } else {
                    spec_preprocess_events(rest, depth, profile)
                }
            },
            XmlEventView::End { name } => {
                if depth > 0 {
                    spec_preprocess_events(rest, depth - 1, profile)
                } else {
                    spec_render_end(name) + spec_preprocess_events(rest, depth, profile)
                }
            },
        }
    }
}

/// The profile-filtered text: elements tagged for another profile are elided
/// with their subtrees; on malformed input the text is returned unchanged.
pub open spec fn spec_preprocess(s: Seq<char>, profile: Seq<char>) -> Seq<char> {
    match spec_tokenize(s, 0) {
        Ok(evs) => spec_preprocess_events(evs, 0, profile),
        Err(_) => s,
    }
}

/// Looks up the first `profile` attribute.
fn profile_attr(attrs: &Vec<(String, String)>) -> (r: Option<String>)
    ensures
        match r {
            Some(p) => spec_profile_attr(crate::xml::spec_attrs_view(attrs@)) == Some(p@),
            None => spec_profile_attr(crate::xml::spec_attrs_view(attrs@)) is None,
        },
{
    let ghost av = crate::xml::spec_attrs_view(attrs@);
    let n = attrs.len();
    let mut i: usize = 0;
    proof {
        assert(av.skip(0) =~= av);
    }
    while i < n
        invariant
            n == attrs@.len(),
            av == crate::xml::spec_attrs_view(attrs@),
            i <= n,
            spec_profile_attr(av) == spec_profile_attr(av.skip(i as int)),
        decreases n - i,
    {
        proof {
            assert(av.skip(i as int)[0] == av[i as int]);
            assert(av.skip(i as int).drop_first() =~= av.skip(i + 1));
        }
        if crate::text::str_eq(attrs[i].0.as_str(), "profile") {
            let p = (&attrs[i].1).clone();
            proof {
                assert(p@ == attrs@[i as int].1@);
            }
            return Some(p);
        }
        i = i + 1;
    }
    proof {
        assert(av.skip(n as int) =~= Seq::<(Seq<char>, Seq<char>)>::empty());
    }
    None
}

/// Appends the re-emitted attribute list.
fn render_attrs(out: &mut Vec<char>, attrs: &Vec<(String, String)>)
    ensures
        final(out)@ == old(out)@ + spec_render_attrs(crate::xml::spec_attrs_view(attrs@)),
{
    let ghost av = crate::xml::spec_attrs_view(attrs@);
    let n = attrs.len();
    let mut i: usize = 0;
    while i < n
        invariant
            n == attrs@.len(),
            av == crate::xml::spec_attrs_view(attrs@),
            i <= n,
            out@ == old(out)@ + spec_render_attrs(av.take(i as int)),
        decreases n - i,
    {
        out.push(' ');
        push_str(out, attrs[i].0.as_str());
        push_str(out, "=\"");
        push_str(out, attrs[i].1.as_str());
        out.push('"');
        i = i + 1;
        proof {
            assert(av.take(i as int).drop_last() =~= av.take(i - 1));
            assert(av.take(i as int).last() == av[i - 1]);
            assert(out@ =~= old(out)@ + spec_render_attrs(av.take(i as int)));
        }
    }
    proof {
        assert(av.take(n as int) =~= av);
    }
}

/// Appends a re-emitted opening tag.
fn render_start(out: &mut Vec<char>, name: &String, attrs: &Vec<(String, String)>)
    ensures
        final(out)@ == old(out)@ + spec_render_start(
            name@,
            crate::xml::spec_attrs_view(attrs@),
        ),
{
    out.push('<');
    push_str(out, name.as_str());
    render_attrs(out, attrs);
    out.push('>');
    proof {
        assert(out@ =~= old(out)@ + spec_render_start(
            name@,
            crate::xml::spec_attrs_view(attrs@),
        ));
    }
}

/// Appends a re-emitted self-closing tag.
fn render_empty(out: &mut Vec<char>, name: &String, attrs: &Vec<(String, String)>)
    ensures
        final(out)@ == old(out)@ + spec_render_empty(
            name@,
            crate::xml::spec_attrs_view(attrs@),
        ),
{
    out.push('<');
    push_str(out, name.as_str());
    render_attrs(out, attrs);
    push_str(out, "/>");
    proof {
        assert(out@ =~= old(out)@ + spec_render_empty(
            name@,
            crate::xml::spec_attrs_view(attrs@),
        ));
    }
}

/// Filters a text by build profile: any element whose `profile` attribute
/// differs from `current_profile` is elided together with its subtree;
/// elements without the attribute are kept. Malformed input is returned
/// unchanged rather than failing the build.
pub fn preprocess_xml(xml: &str, current_profile: &str) -> (r: String)
    ensures
        r@ == spec_preprocess(xml@, current_profile@),
{
    let chars = str_to_chars(xml);
    let events = match tokenize(&chars) {
        Ok(evs) => evs,
        Err(_) => {
            return xml.to_owned();
        },
    };
    let ghost evsv = crate::xml::spec_events_view(events@);
    let n = events.len();
    let mut out: Vec<char> = Vec::new();
    let mut depth: usize = 0;
    let mut i: usize = 0;
    proof {
        assert(evsv.skip(0) =~= evsv);
    }
    while i < n
        invariant
            n == events@.len(),
            evsv == crate::xml::spec_events_view(events@),
            i <= n,
            depth <= i,
            spec_preprocess_events(evsv, 0, current_profile@) == out@ + spec_preprocess_events(
                evsv.skip(i as int),
                depth as int,
                current_profile@,
            ),
        decreases n - i,
    {
        proof {
            assert(evsv.skip(i as int)[0] == evsv[i as int]);
            assert(evsv[i as int] == events@[i as int]@);
            assert(evsv.skip(i as int).drop_first() =~= evsv.skip(i + 1));
        }
        match &events[i] {
            XmlEvent::Start { name, attrs } => {
                let pa = profile_attr(attrs);
                let mismatched = match &pa {
                    Some(p) => !crate::text::str_eq(p.as_str(), current_profile),
                    None => false,
                };
                if depth > 0 {
                    depth = depth + 1;
                } else if mismatched {
                    depth = 1;
                }
                if depth == 0 {
                    render_start(&mut out, name, attrs);
                }
            },
            XmlEvent::Empty { name, attrs } => {
                if depth == 0 {
                    let pa = profile_attr(attrs);
                    let keep = match &pa {
                        Some(p) => crate::text::str_eq(p.as_str(), current_profile),
                        None => true,
                    };
                    if keep {
                        render_empty(&mut out, name, attrs);
                    }
                }
            },
            XmlEvent::Text { text } => {
                if depth == 0 {
                    push_str(&mut out, text.as_str());
                }
            },
            XmlEvent::End { name } => {
                if depth > 0 {
                    depth = depth - 1;
                } else {
                    push_str(&mut out, "</");
                    push_str(&mut out, name.as_str());
                    out.push('>');
                    proof {
                        let prev = evsv.skip(i as int);
                        assert(spec_preprocess_events(prev, 0, current_profile@)
                            == spec_render_end(name@) + spec_preprocess_events(
                            evsv.skip(i + 1),
                            0,
                            current_profile@,
                        ));
                    }
                }
            },
        }
        i = i + 1;
        proof {
            assert(spec_preprocess_events(evsv, 0, current_profile@) == out@
                + spec_preprocess_events(
                evsv.skip(i as int),
                depth as int,
                current_profile@,
            ));
        }
    }
    proof {
        assert(evsv.skip(n as int) =~= Seq::<XmlEventView>::empty());
        assert(out@ =~= spec_preprocess(xml@, current_profile@));
    }
    chars_to_string(&out)
}

} // verus!
