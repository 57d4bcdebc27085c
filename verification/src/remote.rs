//! What a synchronisation reads of the emails and mailboxes on the server.

use vstd::prelude::*;

use crate::jmap::Id;
use crate::keyed;
use crate::keyed::{KeyMap, KeySet};

verus! {

/// An email of the server.
#[derive(Debug)]
pub struct Email {
    pub id: Id,
    /// The identifier of the email's contents.
    pub blob_id: Id,
    /// The mailboxes that the email is in.
    pub mailbox_ids: Vec<Id>,
    /// The tags that the built-in keywords of the email stand for.
    pub builtin_keyword_tags: Vec<String>,
    /// The tags that the custom keywords of the email stand for.
    pub custom_keyword_tags: Vec<String>,
}

/// A mailbox of the server.
#[derive(Debug)]
pub struct Mailbox {
    pub id: Id,
    /// The notmuch tag that stands for the mailbox.
    pub tag: String,
}

/// The mailboxes of the server.
pub struct Mailboxes {
    pub mailboxes_by_id: KeyMap<Id, Mailbox>,
    pub ids_by_tag: KeyMap<String, Id>,
}

impl Mailboxes {
    /// No mailboxes.
    pub fn new() -> (mailboxes: Self)
        ensures
            mailboxes.mailboxes_by_id@ == keyed::Dict::<Mailbox>::empty(),
            mailboxes.ids_by_tag@ == keyed::Dict::<Id>::empty(),
    {
        Mailboxes { mailboxes_by_id: KeyMap::new(), ids_by_tag: KeyMap::new() }
    }
}

/// The tags that `tags` lists.
pub open spec fn listed(tags: Seq<String>) -> Set<Seq<char>> {
    Set::new(|tag: Seq<char>| exists|i: int| 0 <= i < tags.len() && (#[trigger] tags[i])@ == tag)
}

/// The tags of those of the mailboxes `ids` that are known.
pub open spec fn mailbox_tags(ids: Seq<Id>, mailboxes: Mailboxes) -> Set<Seq<char>> {
    Set::new(
        |tag: Seq<char>|
            exists|i: int|
                0 <= i < ids.len() && (mailboxes.mailboxes_by_id@.get((#[trigger] ids[i])@) matches Some(
                    mailbox,
                ) && mailbox.tag@ == tag),
    )
}

/// The tags that an email has by what the server says of it: those of its
/// mailboxes, of its built-in keywords and of its custom keywords.
pub open spec fn server_tags(email: Email, mailboxes: Mailboxes) -> Set<Seq<char>> {
    mailbox_tags(email.mailbox_ids@, mailboxes).union(
        listed(email.builtin_keyword_tags@),
    ).union(listed(email.custom_keyword_tags@))
}

/// Adds every one of `more` to `tags`.
fn add_tags(tags: &mut KeySet<String>, more: &Vec<String>)
    ensures
        final(tags)@.to_set() == old(tags)@.to_set().union(listed(more@)),
{
    let ghost before = tags@.to_set();
    assert(before =~= before.union(listed(more@.take(0))));
    for i in 0..more.len()
        invariant
            tags@.to_set() == before.union(listed(more@.take(i as int))),
    {
        proof {
            keyed::lemma_with_key(tags@, more@[i as int]@);
            lemma_listed_next(more@, i as int);
        }
        tags.insert(more[i].clone());
        assert(before.union(listed(more@.take(i + 1))) =~= before.union(
            listed(more@.take(i as int)),
        ).insert(more@[i as int]@));
    }
    assert(more@.take(more@.len() as int) =~= more@);
}

proof fn lemma_listed_next(tags: Seq<String>, i: int)
    requires
        0 <= i < tags.len(),
    ensures
        listed(tags.take(i + 1)) == listed(tags.take(i)).insert(tags[i]@),
{
    let shorter = tags.take(i);
    let longer = tags.take(i + 1);
    assert forall|tag: Seq<char>| listed(longer).contains(tag) == listed(shorter).insert(
        tags[i]@,
    ).contains(tag) by {
        if listed(shorter).contains(tag) {
            let j = choose|j: int| 0 <= j < shorter.len() && (#[trigger] shorter[j])@ == tag;
            assert(longer[j]@ == tag);
        }
        if tags[i]@ == tag {
            assert(longer[i]@ == tag);
        }
        if listed(longer).contains(tag) {
            let j = choose|j: int| 0 <= j < longer.len() && (#[trigger] longer[j])@ == tag;
            if j < i {
                assert(shorter[j]@ == tag);
            }
        }
    }
    assert(listed(longer) =~= listed(shorter).insert(tags[i]@));
}

proof fn lemma_mailbox_tags_next(ids: Seq<Id>, mailboxes: Mailboxes, i: int)
    requires
        0 <= i < ids.len(),
    ensures
        mailbox_tags(ids.take(i + 1), mailboxes) == match mailboxes.mailboxes_by_id@.get(ids[i]@) {
            Some(mailbox) => mailbox_tags(ids.take(i), mailboxes).insert(mailbox.tag@),
            None => mailbox_tags(ids.take(i), mailboxes),
        },
{
    let shorter = ids.take(i);
    let longer = ids.take(i + 1);
    let by_id = mailboxes.mailboxes_by_id@;
    let next = match by_id.get(ids[i]@) {
        Some(mailbox) => mailbox_tags(shorter, mailboxes).insert(mailbox.tag@),
        None => mailbox_tags(shorter, mailboxes),
    };
    assert forall|tag: Seq<char>|
        mailbox_tags(longer, mailboxes).contains(tag) == next.contains(tag) by {
        if mailbox_tags(shorter, mailboxes).contains(tag) {
            let j = choose|j: int|
                0 <= j < shorter.len() && (by_id.get((#[trigger] shorter[j])@) matches Some(
                    mailbox,
                ) && mailbox.tag@ == tag);
            assert(longer[j] == shorter[j]);
        }
        assert(longer[i] == ids[i]);
        if mailbox_tags(longer, mailboxes).contains(tag) {
            let j = choose|j: int|
                0 <= j < longer.len() && (by_id.get((#[trigger] longer[j])@) matches Some(mailbox)
                    && mailbox.tag@ == tag);
            if j < i {
                assert(shorter[j] == longer[j]);
            }
        }
    }
    assert(mailbox_tags(longer, mailboxes) =~= next);
}

/// The tags that an email gets when it is pulled from the server. Tags of
/// mailboxes go before those of built-in keywords, and these before those of
/// custom keywords; equal tags are one tag, so the order shows in nothing else.
pub fn tags_of(email: &Email, mailboxes: &Mailboxes) -> (tags: KeySet<String>)
    ensures
        tags@.to_set() == server_tags(*email, *mailboxes),
{
    let mut tags: KeySet<String> = KeySet::new();
    proof {
        assert(email.mailbox_ids@.take(0) =~= Seq::empty());
        assert(tags@.to_set() =~= mailbox_tags(email.mailbox_ids@.take(0), *mailboxes));
    }
    for i in 0..email.mailbox_ids.len()
        invariant
            tags@.to_set() == mailbox_tags(email.mailbox_ids@.take(i as int), *mailboxes),
    {
        proof {
            lemma_mailbox_tags_next(email.mailbox_ids@, *mailboxes, i as int);
        }
        if let Some(mailbox) = mailboxes.mailboxes_by_id.get(email.mailbox_ids[i].0.as_str()) {
            proof {
                keyed::lemma_with_key(tags@, mailbox.tag@);
            }
            tags.insert(mailbox.tag.clone());
        }
    }
    assert(email.mailbox_ids@.take(email.mailbox_ids@.len() as int) =~= email.mailbox_ids@);
    add_tags(&mut tags, &email.builtin_keyword_tags);
    add_tags(&mut tags, &email.custom_keyword_tags);
    tags
}

/// Where a tag stands, and how often, plays no part: emails in the same mailboxes
/// whose keywords stand for the same tags, be these built-in or custom, get the
/// same tags.
pub proof fn law_tags_have_no_order(email: Email, other: Email, mailboxes: Mailboxes)
    requires
        forall|id: Seq<char>| #[trigger]
            is_in(email.mailbox_ids@, id) <==> is_in(other.mailbox_ids@, id),
        listed(email.builtin_keyword_tags@).union(listed(email.custom_keyword_tags@)) == listed(
            other.builtin_keyword_tags@,
        ).union(listed(other.custom_keyword_tags@)),
    ensures
        server_tags(email, mailboxes) == server_tags(other, mailboxes),
{
    lemma_same_mailboxes(email.mailbox_ids@, other.mailbox_ids@, mailboxes);
    lemma_same_mailboxes(other.mailbox_ids@, email.mailbox_ids@, mailboxes);
    let mine = listed(email.builtin_keyword_tags@).union(listed(email.custom_keyword_tags@));
    assert(server_tags(email, mailboxes) =~= mailbox_tags(email.mailbox_ids@, mailboxes).union(
        mine,
    ));
    assert(server_tags(other, mailboxes) =~= mailbox_tags(other.mailbox_ids@, mailboxes).union(
        mine,
    ));
    assert(mailbox_tags(email.mailbox_ids@, mailboxes) =~= mailbox_tags(
        other.mailbox_ids@,
        mailboxes,
    ));
}

/// `ids` lists the identifier `id`.
pub open spec fn is_in(ids: Seq<Id>, id: Seq<char>) -> bool {
    exists|i: int| 0 <= i < ids.len() && (#[trigger] ids[i])@ == id
}

proof fn lemma_same_mailboxes(ids: Seq<Id>, others: Seq<Id>, mailboxes: Mailboxes)
    requires
        forall|id: Seq<char>| #[trigger] is_in(ids, id) ==> is_in(others, id),
    ensures
        mailbox_tags(ids, mailboxes).subset_of(mailbox_tags(others, mailboxes)),
{
    let by_id = mailboxes.mailboxes_by_id@;
    assert forall|tag: Seq<char>| mailbox_tags(ids, mailboxes).contains(tag) implies mailbox_tags(
        others,
        mailboxes,
    ).contains(tag) by {
        let i = choose|i: int|
            0 <= i < ids.len() && (by_id.get((#[trigger] ids[i])@) matches Some(mailbox)
                && mailbox.tag@ == tag);
        let id = ids[i]@;
        assert(is_in(ids, id));
        assert(is_in(others, id));
        let j = choose|j: int| 0 <= j < others.len() && (#[trigger] others[j])@ == id;
        assert(by_id.get(others[j]@) == by_id.get(id));
    }
}

/// An email gets the tag of every known mailbox that it is in, whatever keywords
/// it has, and every tag that its keywords stand for, whatever mailboxes it is
/// in, and no other tag.
pub proof fn law_tags_come_from_mailboxes_and_keywords(
    email: Email,
    mailboxes: Mailboxes,
    tag: Seq<char>,
)
    ensures
        server_tags(email, mailboxes).contains(tag) <==> {
            ||| exists|i: int|
                0 <= i < email.mailbox_ids@.len() && {
                    let id = (#[trigger] email.mailbox_ids@[i])@;
                    mailboxes.mailboxes_by_id@.map.contains_key(id)
                        && mailboxes.mailboxes_by_id@.map[id].tag@ == tag
                }
            ||| exists|i: int|
                0 <= i < email.builtin_keyword_tags@.len() && (
                #[trigger] email.builtin_keyword_tags@[i])@ == tag
            ||| exists|i: int|
                0 <= i < email.custom_keyword_tags@.len() && (
                #[trigger] email.custom_keyword_tags@[i])@ == tag
        },
{
    let by_id = mailboxes.mailboxes_by_id@;
    let ids = email.mailbox_ids@;
    assert(mailbox_tags(ids, mailboxes).contains(tag) <==> exists|i: int|
        0 <= i < ids.len() && by_id.map.contains_key((#[trigger] ids[i])@)
            && by_id.map[ids[i]@].tag@ == tag) by {
        if mailbox_tags(ids, mailboxes).contains(tag) {
            let i = choose|i: int|
                0 <= i < ids.len() && (by_id.get((#[trigger] ids[i])@) matches Some(mailbox)
                    && mailbox.tag@ == tag);
            assert(by_id.map.contains_key(ids[i]@));
        }
    }
}

/// One more mailbox brings its tag and takes none away.
pub proof fn law_mailbox_adds_its_tag(
    email: Email,
    wider: Email,
    id: Id,
    mailboxes: Mailboxes,
    mailbox: Mailbox,
)
    requires
        wider.mailbox_ids@ == email.mailbox_ids@.push(id),
        wider.builtin_keyword_tags@ == email.builtin_keyword_tags@,
        wider.custom_keyword_tags@ == email.custom_keyword_tags@,
        mailboxes.mailboxes_by_id@.map.contains_key(id@),
        mailboxes.mailboxes_by_id@.map[id@] == mailbox,
    ensures
        server_tags(wider, mailboxes) == server_tags(email, mailboxes).insert(mailbox.tag@),
{
    let all = wider.mailbox_ids@;
    let n = email.mailbox_ids@.len() as int;
    lemma_mailbox_tags_next(all, mailboxes, n);
    assert(all.take(n) =~= email.mailbox_ids@);
    assert(all.take(n + 1) =~= all);
    assert(server_tags(wider, mailboxes) =~= server_tags(email, mailboxes).insert(mailbox.tag@));
}

} // verus!
