//! The block of references of a fragment: links to the fragments it refers
//! to and to the fragments that refer to it.

use crate::anchor::{anchor_id, anchor_lines, anchor_markup, block_link, AnchorNamer};
use crate::config::SettingsView;
use crate::document::TextBlock;
use crate::error::{Failure, FailureKind, TemplateName};
use crate::templates::{rendered_block, rendered_label, Templates};
use crate::text::{join, joined, lines_of, split_lines, texts};
use vstd::prelude::*;

verus! {

/// A link with the given visible text to the anchor with the given
/// identifier.
pub open spec fn link_markup(label: Seq<char>, target: Seq<char>) -> Seq<char> {
    "["@ + label + "](#"@ + target + ")"@
}

/// Whether the label of every name renders.
pub open spec fn labels_render(settings: SettingsView, names: Seq<Seq<char>>) -> bool {
    forall|i: int| 0 <= i < names.len() ==> (#[trigger] rendered_label(settings, names[i])) is Some
}

/// The links to the fragments of the given names, in order.
pub open spec fn links_to(settings: SettingsView, names: Seq<Seq<char>>) -> Seq<Seq<char>> {
    Seq::new(
        names.len(),
        |i: int| link_markup(rendered_label(settings, names[i]).unwrap(), anchor_id(names[i])),
    )
}

/// The links to the fragments of the given names, joined by the separator;
/// nothing where there is no name.
pub open spec fn link_list(settings: SettingsView, names: Seq<Seq<char>>, separator: Seq<char>)
    -> Option<Seq<char>> {
    if names.len() == 0 {
        None
    } else {
        Some(joined(links_to(settings, names), separator))
    }
}

/// The lines of a block of references with the given rendered text: an empty
/// line, then the lines of the text.
pub open spec fn block_lines(rendered: Seq<char>) -> Seq<Seq<char>> {
    seq![Seq::<char>::empty()] + lines_of(rendered)
}

/// The block of references of a fragment that refers to the fragments in
/// `macros` and is referred to by those in `usage`:
/// a label that does not render is a failure of the label template;
/// without any name there is no block;
/// else the block template is rendered from the two lists of links, and a
/// failure to do so is a failure of the block template.
pub open spec fn reference_block(
    settings: SettingsView,
    macros: Seq<Seq<char>>,
    usage: Seq<Seq<char>>,
    newline: Seq<char>,
    separator: Seq<char>,
) -> Result<Option<Seq<Seq<char>>>, FailureKind> {
    if !labels_render(settings, macros) || !labels_render(settings, usage) {
        Err(FailureKind::Render(TemplateName::Label))
    } else if macros.len() == 0 && usage.len() == 0 {
        Ok(None)
    } else {
        match rendered_block(
            settings,
            link_list(settings, macros, separator),
            link_list(settings, usage, separator),
            newline,
        ) {
            Some(rendered) => Ok(Some(block_lines(rendered))),
            None => Err(FailureKind::Render(TemplateName::Template)),
        }
    }
}

/// The names of a usage list that may be absent.
pub open spec fn optional_names(usage: Option<&Vec<String>>) -> Seq<Seq<char>> {
    match usage {
        Some(names) => texts(names@),
        None => Seq::empty(),
    }
}

/// The lines of a text block that may be absent.
pub open spec fn optional_lines(block: Option<TextBlock>) -> Option<Seq<Seq<char>>> {
    match block {
        Some(lines) => Some(lines@),
        None => None,
    }
}

/// The view of a text that may be absent.
pub open spec fn optional_text(text: Option<String>) -> Option<Seq<char>> {
    match text {
        Some(value) => Some(value@),
        None => None,
    }
}

/// A link with the given visible text to the anchor with the given
/// identifier.
pub fn format_link(label: &str, target: &str) -> (link: String)
    ensures
        link@ == link_markup(label@, target@),
{
    let mut link = String::from_str("[");
    link.append(label);
    link.append("](#");
    link.append(target);
    link.append(")");
    link
}

/// The text block of a block of references with the given rendered text.
pub fn reference_text(rendered: &str) -> (block: TextBlock)
    ensures
        block@ == block_lines(rendered@),
{
    let mut text = split_lines(rendered);
    let ghost lines = text@;
    let blank = String::new();
    text.insert(0, blank);
    proof {
        assert(texts(lines.insert(0, blank)) == seq![blank@] + texts(lines));
    }
    TextBlock { text }
}

/// Renders the links to the fragments of the given names and joins them by
/// the separator. Without a name there is no list.
pub fn format_link_list(
    templates: &Templates,
    namer: &AnchorNamer,
    names: &[String],
    separator: &str,
) -> (outcome: Result<Option<String>, Failure>)
    requires
        templates.wf(),
        namer.wf(),
    ensures
        match outcome {
            Ok(list) => labels_render(templates@, texts(names@)) && optional_text(list)
                == link_list(templates@, texts(names@), separator@),
            Err(failure) => !labels_render(templates@, texts(names@)) && failure.kind
                == FailureKind::Render(TemplateName::Label),
        },
{
    let ghost all = texts(names@);
    let mut links: Vec<String> = Vec::new();
    let mut i: usize = 0;
    while i < names.len()
        invariant
            i <= names.len(),
            templates.wf(),
            namer.wf(),
            all == texts(names@),
            forall|k: int| 0 <= k < i ==> (#[trigger] rendered_label(templates@, all[k])) is Some,
            texts(links@) == links_to(templates@, all.take(i as int)),
        decreases names.len() - i,
    {
        let name = names[i].as_str();
        proof {
            assert(all[i as int] == name@);
        }
        match templates.render_label(name) {
            Ok(label) => {
                let target = block_link(namer, name);
                let link = format_link(label.as_str(), target.as_str());
                proof {
                    let before = links_to(templates@, all.take(i as int));
                    let after = links_to(templates@, all.take(i + 1));
                    assert forall|k: int| 0 <= k < i implies after[k] == before[k] by {
                        assert(all.take(i + 1)[k] == all.take(i as int)[k]);
                    }
                    assert(all.take(i + 1)[i as int] == name@);
                    assert(after[i as int] == link@);
                    assert(texts(links@).len() == i);
                    assert(texts(links@.push(link)) =~= texts(links@).push(link@));
                    assert(texts(links@).push(link@) =~= after);
                }
                links.push(link);
            },
            Err(failure) => {
                return Err(failure);
            },
        }
        i = i + 1;
    }
    proof {
        assert(all.take(names.len() as int) == all);
    }
    if names.len() == 0 {
        Ok(None)
    } else {
        Ok(Some(join(&links, separator)))
    }
}

/// Renders the block of references of a fragment that refers to the
/// fragments in `macros` and is referred to by those in `usage`. A fragment
/// without either gets no block.
pub fn format_links(
    templates: &Templates,
    namer: &AnchorNamer,
    macros: &[String],
    usage: Option<&Vec<String>>,
    newline: &str,
    separator: &str,
) -> (outcome: Result<Option<TextBlock>, Failure>)
    requires
        templates.wf(),
        namer.wf(),
    ensures
        match outcome {
            Ok(block) => reference_block(
                templates@,
                texts(macros@),
                optional_names(usage),
                newline@,
                separator@,
            ) == Ok::<Option<Seq<Seq<char>>>, FailureKind>(optional_lines(block)),
            Err(failure) => reference_block(
                templates@,
                texts(macros@),
                optional_names(usage),
                newline@,
                separator@,
            ) == Err::<Option<Seq<Seq<char>>>, FailureKind>(failure.kind),
        },
{
    let macro_links = match format_link_list(templates, namer, macros, separator) {
        Ok(list) => list,
        Err(failure) => {
            return Err(failure);
        },
    };
    let usage_links = match usage {
        Some(names) => match format_link_list(templates, namer, names.as_slice(), separator) {
            Ok(list) => list,
            Err(failure) => {
                return Err(failure);
            },
        },
        None => None,
    };
    if macro_links.is_none() && usage_links.is_none() {
        return Ok(None);
    }
    let macro_text = match &macro_links {
        Some(list) => Some(list.as_str()),
        None => None,
    };
    let usage_text = match &usage_links {
        Some(list) => Some(list.as_str()),
        None => None,
    };
    match templates.render_block(macro_text, usage_text, newline) {
        Ok(rendered) => Ok(Some(reference_text(rendered.as_str()))),
        Err(failure) => Err(failure),
    }
}

/// The anchor of a fragment and every link to it carry the same identifier:
/// both are made from the identifier of the fragment's name.
pub proof fn lemma_anchor_matches_link(settings: SettingsView, name: Seq<char>)
    ensures
        anchor_lines(name) == seq![anchor_markup(anchor_id(name))],
        links_to(settings, seq![name]) == seq![
            link_markup(rendered_label(settings, name).unwrap(), anchor_id(name)),
        ],
{
}

/// A link is never empty: it opens with a bracket, holds its visible text
/// and its target, and closes with a parenthesis.
pub proof fn lemma_link_shape(label: Seq<char>, target: Seq<char>)
    ensures
        link_markup(label, target).len() == label.len() + target.len() + 5,
        link_markup(label, target).first() == '[',
        link_markup(label, target).last() == ')',
        link_markup(label, target).subrange(1, 1 + label.len() as int) == label,
        link_markup(label, target).subrange(
            4 + label.len() as int,
            4 + label.len() as int + target.len() as int,
        ) == target,
{
    reveal_strlit("[");
    reveal_strlit("](#");
    reveal_strlit(")");
}

} // verus!
