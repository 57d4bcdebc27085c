//! Which tags need a mailbox.

use vstd::prelude::*;

use crate::keyed::{Key, KeySet};
use crate::remote::Mailboxes;
use crate::seqs;

verus! {

/// The tags that are no matter of mailboxes.
pub struct TagRules {
    /// The tags that stand for built-in keywords.
    pub builtin_keyword_tags: KeySet<String>,
    /// The tags that stand for custom keywords.
    pub custom_keywords: KeySet<String>,
    /// The tags that notmuch sets by itself.
    pub automatic_tags: KeySet<String>,
}

/// Whether `tag` needs a mailbox. Any tags which can be mapped to a keyword do
/// not; automatic tags are never mapped to mailboxes.
pub open spec fn needs_mailbox(tag: Seq<char>, rules: TagRules) -> bool {
    &&& !rules.builtin_keyword_tags@.contains(tag)
    &&& !rules.custom_keywords@.contains(tag)
    &&& !rules.automatic_tags@.contains(tag)
}

/// Those of `tags` that need a mailbox and have none.
pub open spec fn without_mailbox(
    tags: Seq<String>,
    rules: TagRules,
    mailboxes: Mailboxes,
) -> Seq<String> {
    tags.filter(
        |tag: String| needs_mailbox(tag@, rules) && !mailboxes.ids_by_tag@.contains(tag@),
    )
}

/// Those of `tags` that need a mailbox and have none.
pub fn tags_with_missing_mailboxes(
    tags: &Vec<String>,
    rules: &TagRules,
    mailboxes: &Mailboxes,
) -> (missing: Vec<String>)
    ensures
        missing@ == without_mailbox(tags@, *rules, *mailboxes),
{
    let mut missing: Vec<String> = Vec::new();
    let ghost keep = |tag: String|
        needs_mailbox(tag@, *rules) && !mailboxes.ids_by_tag@.contains(tag@);
    proof {
        seqs::lemma_filter_none(tags@, keep);
    }
    for i in 0..tags.len()
        invariant
            keep == (|tag: String|
                needs_mailbox(tag@, *rules) && !mailboxes.ids_by_tag@.contains(tag@)),
            missing@ == tags@.take(i as int).filter(keep),
    {
        proof {
            seqs::lemma_filter_next(tags@, keep, i as int);
        }
        let tag = tags[i].as_str();
        let excused = rules.builtin_keyword_tags.contains(tag) || rules.custom_keywords.contains(
            tag,
        ) || rules.automatic_tags.contains(tag);
        if !excused && !mailboxes.ids_by_tag.contains_key(tag) {
            missing.push(tags[i].clone());
        }
    }
    assert(tags@.take(tags@.len() as int) =~= tags@);
    missing
}

/// One more tag is one more missing one if and only if it is itself no tag of a
/// built-in or custom keyword, no automatic tag and has no mailbox, whatever the
/// other tags and the rest of the rules are; those before it stay as they are.
pub proof fn law_missing_tags_are_found_one_by_one(
    tags: Seq<String>,
    tag: String,
    rules: TagRules,
    mailboxes: Mailboxes,
)
    ensures
        without_mailbox(Seq::empty(), rules, mailboxes) == Seq::<String>::empty(),
        without_mailbox(tags.push(tag), rules, mailboxes) == if {
            &&& !rules.builtin_keyword_tags@.contains(tag@)
            &&& !rules.custom_keywords@.contains(tag@)
            &&& !rules.automatic_tags@.contains(tag@)
            &&& !mailboxes.ids_by_tag@.map.contains_key(tag@)
        } {
            without_mailbox(tags, rules, mailboxes).push(tag)
        } else {
            without_mailbox(tags, rules, mailboxes)
        },
{
    reveal(Seq::filter);
    assert(tags.push(tag).drop_last() =~= tags);
}

/// A listed tag is missing if and only if it is itself no tag of a built-in or
/// custom keyword, no automatic tag and has no mailbox.
pub proof fn law_missing_tags_need_a_mailbox(
    tags: Seq<String>,
    tag: String,
    rules: TagRules,
    mailboxes: Mailboxes,
)
    ensures
        without_mailbox(tags, rules, mailboxes).contains(tag) <==> {
            &&& tags.contains(tag)
            &&& !rules.builtin_keyword_tags@.contains(tag@)
            &&& !rules.custom_keywords@.contains(tag@)
            &&& !rules.automatic_tags@.contains(tag@)
            &&& !mailboxes.ids_by_tag@.map.contains_key(tag@)
        },
{
    let keep = |t: String| needs_mailbox(t@, rules) && !mailboxes.ids_by_tag@.contains(t@);
    seqs::lemma_filter_members(tags, keep);
    assert(tags.filter(keep).contains(tag) <==> tags.contains(tag) && keep(tag));
}

} // verus!
