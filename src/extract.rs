//! Links and anchors of one document, read from its elements in document order.
//!
//! A document arrives as the sequence of its start tags, each with its tag
//! name and attributes as the HTML parser reported them (names in lower case).
//! The links are the `href` values of `a` elements, kept verbatim; the anchors
//! are the values of every `id` and `name` attribute.
use vstd::prelude::*;

verus! {

/// One attribute of an element.
#[derive(Debug, Clone)]
pub struct Attribute {
    pub name: String,
    pub value: String,
}

/// One element: its tag name and its attributes in source order.
#[derive(Debug, Clone)]
pub struct Element {
    pub tag: String,
    pub attributes: Vec<Attribute>,
}

/// One outbound link: the target as written, and the document holding it.
#[derive(Debug, Clone)]
pub struct Reference {
    pub raw_target: String,
    pub source_document: String,
}

pub open spec fn href_name() -> Seq<char> {
    seq!['h', 'r', 'e', 'f']
}

pub open spec fn id_name() -> Seq<char> {
    seq!['i', 'd']
}

pub open spec fn name_name() -> Seq<char> {
    seq!['n', 'a', 'm', 'e']
}

pub open spec fn anchor_tag() -> Seq<char> {
    seq!['a']
}

/// The values of the attributes called `name`, in order.
pub open spec fn values_named(attrs: Seq<Attribute>, name: Seq<char>) -> Seq<Seq<char>>
    decreases attrs.len(),
{
    if attrs.len() == 0 {
        Seq::empty()
    } else {
        let rest = values_named(attrs.drop_last(), name);
        if attrs.last().name@ == name {
            rest.push(attrs.last().value@)
        } else {
            rest
        }
    }
}

/// The values of the `id` and `name` attributes, in order.
pub open spec fn anchor_values(attrs: Seq<Attribute>) -> Seq<Seq<char>>
    decreases attrs.len(),
{
    if attrs.len() == 0 {
        Seq::empty()
    } else {
        let rest = anchor_values(attrs.drop_last());
        if attrs.last().name@ == id_name() || attrs.last().name@ == name_name() {
            rest.push(attrs.last().value@)
        } else {
            rest
        }
    }
}

/// The link targets of the elements: `href` of each `a`, in order.
pub open spec fn link_targets(els: Seq<Element>) -> Seq<Seq<char>>
    decreases els.len(),
{
    if els.len() == 0 {
        Seq::empty()
    } else {
        let rest = link_targets(els.drop_last());
        if els.last().tag@ == anchor_tag() {
            rest + values_named(els.last().attributes@, href_name())
        } else {
            rest
        }
    }
}

/// The anchors that the elements define, in order.
pub open spec fn anchor_names(els: Seq<Element>) -> Seq<Seq<char>>
    decreases els.len(),
{
    if els.len() == 0 {
        Seq::empty()
    } else {
        anchor_names(els.drop_last()) + anchor_values(els.last().attributes@)
    }
}

pub open spec fn strings_view(v: Seq<String>) -> Seq<Seq<char>> {
    v.map_values(|s: String| s@)
}

/// Whether `s` holds exactly the text `t`.
pub fn same_text(s: &String, t: &str) -> (r: bool)
    ensures
        r == (s@ == t@),
{
    let n = s.as_str().unicode_len();
    if n != t.unicode_len() {
        return false;
    }
    let mut i: usize = 0;
    while i < n
        invariant
            i <= n,
            n == s@.len(),
            n == t@.len(),
            forall|j: int| 0 <= j < i ==> s@[j] == t@[j],
        decreases n - i,
    {
        if s.as_str().get_char(i) != t.get_char(i) {
            return false;
        }
        i += 1;
    }
    assert(s@ =~= t@);
    true
}

/// The links of a document, in document order, each tagged with `source`.
pub fn extract_references(elements: &Vec<Element>, source: &str) -> (r: Vec<Reference>)
    ensures
        r@.len() == link_targets(elements@).len(),
        forall|i: int|
            0 <= i < r@.len() ==> (#[trigger] r@[i]).raw_target@ == link_targets(elements@)[i]
                && r@[i].source_document@ == source@,
{
    let mut out: Vec<Reference> = Vec::new();
    let mut i: usize = 0;
    proof {
        reveal_strlit("a");
        reveal_strlit("href");
        assert("a"@ =~= anchor_tag());
        assert("href"@ =~= href_name());
        assert(elements@.take(0) =~= Seq::<Element>::empty());
    }
    while i < elements.len()
        invariant
            i <= elements.len(),
            "a"@ == anchor_tag(),
            "href"@ == href_name(),
            out@.len() == link_targets(elements@.take(i as int)).len(),
            forall|k: int|
                0 <= k < out@.len() ==> (#[trigger] out@[k]).raw_target@ == link_targets(
                    elements@.take(i as int),
                )[k] && out@[k].source_document@ == source@,
        decreases elements.len() - i,
    {
        let el = &elements[i];
        proof {
            assert(elements@.take(i + 1).drop_last() =~= elements@.take(i as int));
            assert(elements@.take(i + 1).last() == *el);
        }
        if same_text(&el.tag, "a") {
            let attrs = &el.attributes;
            let ghost prefix = link_targets(elements@.take(i as int));
            let ghost start = out@.len();
            let mut j: usize = 0;
            proof {
                assert(attrs@.take(0) =~= Seq::<Attribute>::empty());
            }
            while j < attrs.len()
                invariant
                    j <= attrs.len(),
                    start == prefix.len(),
                    out@.len() == prefix.len() + values_named(attrs@.take(j as int), href_name()).len(),
                    forall|k: int|
                        0 <= k < out@.len() ==> (#[trigger] out@[k]).raw_target@ == (prefix
                            + values_named(attrs@.take(j as int), href_name()))[k]
                            && out@[k].source_document@ == source@,
                    "href"@ == href_name(),
                decreases attrs.len() - j,
            {
                proof {
                    assert(attrs@.take(j + 1).drop_last() =~= attrs@.take(j as int));
                    assert(attrs@.take(j + 1).last() == attrs@[j as int]);
                }
                if same_text(&attrs[j].name, "href") {
                    out.push(
                        Reference {
                            raw_target: attrs[j].value.clone(),
                            source_document: String::from_str(source),
                        },
                    );
                    proof {
                        let vn = values_named(attrs@.take(j as int), href_name());
                        assert(prefix + vn.push(attrs@[j as int].value@) =~= (prefix + vn).push(
                            attrs@[j as int].value@,
                        ));
                    }
                }
                j += 1;
            }
            proof {
                assert(attrs@.take(attrs.len() as int) =~= attrs@);
            }
        }
        i += 1;
    }
    proof {
        assert(elements@.take(elements.len() as int) =~= elements@);
    }
    out
}

/// The anchors that a document defines: every `id` and `name` value.
pub fn anchor_set(elements: &Vec<Element>) -> (r: Vec<String>)
    ensures
        strings_view(r@) == anchor_names(elements@),
{
    let mut out: Vec<String> = Vec::new();
    let mut i: usize = 0;
    proof {
        reveal_strlit("id");
        reveal_strlit("name");
        assert("id"@ =~= id_name());
        assert("name"@ =~= name_name());
        assert(elements@.take(0) =~= Seq::<Element>::empty());
        assert(strings_view(out@) =~= Seq::<Seq<char>>::empty());
    }
    while i < elements.len()
        invariant
            i <= elements.len(),
            "id"@ == id_name(),
            "name"@ == name_name(),
            strings_view(out@) == anchor_names(elements@.take(i as int)),
        decreases elements.len() - i,
    {
        let attrs = &elements[i].attributes;
        proof {
            assert(elements@.take(i + 1).drop_last() =~= elements@.take(i as int));
            assert(elements@.take(i + 1).last() == elements@[i as int]);
        }
        let ghost prefix = strings_view(out@);
        let mut j: usize = 0;
        proof {
            assert(attrs@.take(0) =~= Seq::<Attribute>::empty());
            assert(prefix + anchor_values(attrs@.take(0)) =~= prefix);
        }
        while j < attrs.len()
            invariant
                j <= attrs.len(),
                strings_view(out@) == prefix + anchor_values(attrs@.take(j as int)),
                "id"@ == id_name(),
                "name"@ == name_name(),
            decreases attrs.len() - j,
        {
            proof {
                assert(attrs@.take(j + 1).drop_last() =~= attrs@.take(j as int));
                assert(attrs@.take(j + 1).last() == attrs@[j as int]);
            }
            if same_text(&attrs[j].name, "id") || same_text(&attrs[j].name, "name") {
                let ghost before = out@;
                out.push(attrs[j].value.clone());
                proof {
                    let av = anchor_values(attrs@.take(j as int));
                    assert(strings_view(out@) =~= strings_view(before).push(attrs@[j as int].value@));
                    assert(prefix + av.push(attrs@[j as int].value@) =~= (prefix + av).push(
                        attrs@[j as int].value@,
                    ));
                }
            }
            j += 1;
        }
        proof {
            assert(attrs@.take(attrs.len() as int) =~= attrs@);
        }
        i += 1;
    }
    proof {
        assert(elements@.take(elements.len() as int) =~= elements@);
    }
    out
}

} // verus!
