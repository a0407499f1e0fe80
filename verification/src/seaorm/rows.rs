//! Rows of the SQL store as plain values, and how entities are written to
//! them and read back from them.
use vstd::prelude::*;
use crate::account::{account_resource, Account, AccountInput, AccountView};
use crate::error::{opt_str_view, shared_err, strs_view, Error, ErrorView, SharedErrorKindView};
use crate::journal::{journal_resource, Journal, JournalInput, JournalView};
use crate::seaorm::{
    enum_of_type, type_of_enum, AccountTypeEnum, SeaOrmAccountRepository, SeaOrmJournalRepository,
};
use crate::common::clone_opt_str;
use crate::store::{key_in, key_not_in, select_by_ids, select_missing, unique_keys, views, Entity};
use crate::common::{str_set, tags_wf};
use crate::text::{concat3, is_blank};
use crate::runtime::new_id;

verus! {

/// A row of a tag table: the owner's identifier and one tag.
#[derive(Debug)]
pub struct TagRow {
    pub owner_id: String,
    pub tag: String,
}

/// The mathematical form of a tag row.
pub struct TagRowView {
    pub owner_id: Seq<char>,
    pub tag: Seq<char>,
}

impl View for TagRow {
    type V = TagRowView;

    open spec fn view(&self) -> TagRowView {
        TagRowView { owner_id: self.owner_id@, tag: self.tag@ }
    }
}

/// The views of a sequence of tag rows.
pub open spec fn tag_rows_view(v: Seq<TagRow>) -> Seq<TagRowView> {
    v.map_values(|r: TagRow| r@)
}

/// The tag rows of one owner: one per tag, in order.
pub open spec fn owner_tag_rows(owner: Seq<char>, tags: Seq<Seq<char>>) -> Seq<TagRowView> {
    tags.map_values(|t: Seq<char>| TagRowView { owner_id: owner, tag: t })
}

/// The tags of the rows that belong to `owner`, in row order.
pub open spec fn owner_tags(rows: Seq<TagRowView>, owner: Seq<char>) -> Seq<Seq<char>>
    decreases rows.len(),
{
    if rows.len() == 0 {
        Seq::empty()
    } else {
        let p = owner_tags(rows.drop_last(), owner);
        if rows.last().owner_id == owner {
            p.push(rows.last().tag)
        } else {
            p
        }
    }
}

/// The tags of a set of tag texts that are not blank.
pub open spec fn tag_set(tags: Seq<Seq<char>>) -> Set<Seq<char>> {
    tags.to_set().filter(|t: Seq<char>| !is_blank(t))
}

/// The rows that store the tags of one owner.
pub fn tag_rows(owner: &String, tags: &Vec<String>) -> (r: Vec<TagRow>)
    ensures
        tag_rows_view(r@) == owner_tag_rows(owner@, strs_view(tags@)),
{
    let mut r: Vec<TagRow> = Vec::new();
    let n = tags.len();
    let mut i: usize = 0;
    while i < n
        invariant
            n == tags@.len(),
            i <= n,
            r@.len() == i,
            forall|k: int|
                0 <= k < i ==> (#[trigger] r@[k])@ == (TagRowView {
                    owner_id: owner@,
                    tag: tags@[k]@,
                }),
        decreases n - i,
    {
        r.push(TagRow { owner_id: owner.clone(), tag: tags[i].clone() });
        i = i + 1;
    }
    assert(tag_rows_view(r@) =~= owner_tag_rows(owner@, strs_view(tags@)));
    r
}

/// The tags that the rows hold for `owner`, in row order.
pub fn tags_of_owner(rows: &Vec<TagRow>, owner: &String) -> (r: Vec<String>)
    ensures
        strs_view(r@) == owner_tags(tag_rows_view(rows@), owner@),
{
    let mut r: Vec<String> = Vec::new();
    let n = rows.len();
    let mut i: usize = 0;
    while i < n
        invariant
            n == rows@.len(),
            i <= n,
            strs_view(r@) == owner_tags(tag_rows_view(rows@.subrange(0, i as int)), owner@),
        decreases n - i,
    {
        let ghost before = r@;
        proof {
            let s = tag_rows_view(rows@.subrange(0, i + 1));
            assert(s.drop_last() =~= tag_rows_view(rows@.subrange(0, i as int)));
            assert(s.last() == rows@[i as int]@);
        }
        if rows[i].owner_id == *owner {
            r.push(rows[i].tag.clone());
            proof {
                assert(strs_view(r@) =~= strs_view(before).push(rows@[i as int].tag@));
            }
        }
        i = i + 1;
    }
    assert(rows@.subrange(0, n as int) =~= rows@);
    r
}

/// The tag rows of one owner hold exactly its tags.
pub proof fn lemma_owner_tags_round_trip(owner: Seq<char>, tags: Seq<Seq<char>>)
    ensures
        owner_tags(owner_tag_rows(owner, tags), owner) == tags,
    decreases tags.len(),
{
    if tags.len() > 0 {
        lemma_owner_tags_round_trip(owner, tags.drop_last());
        assert(owner_tag_rows(owner, tags).drop_last() =~= owner_tag_rows(owner, tags.drop_last()));
        assert(tags.drop_last().push(tags.last()) =~= tags);
    }
}

/// The tags of an owner in two runs of rows are its tags in the first run,
/// then those in the second.
pub proof fn lemma_owner_tags_append(a: Seq<TagRowView>, b: Seq<TagRowView>, owner: Seq<char>)
    ensures
        owner_tags(a + b, owner) == owner_tags(a, owner) + owner_tags(b, owner),
    decreases b.len(),
{
    if b.len() == 0 {
        assert(a + b =~= a);
        assert(owner_tags(a, owner) + owner_tags(b, owner) =~= owner_tags(a, owner));
    } else {
        lemma_owner_tags_append(a, b.drop_last(), owner);
        assert((a + b).drop_last() =~= a + b.drop_last());
        assert((a + b).last() == b.last());
        if b.last().owner_id == owner {
            assert(owner_tags(a, owner) + owner_tags(b.drop_last(), owner).push(b.last().tag)
                =~= (owner_tags(a, owner) + owner_tags(b.drop_last(), owner)).push(b.last().tag));
        }
    }
}

/// Rows written for one owner hold no tag of another.
pub proof fn lemma_owner_tags_other(other: Seq<char>, tags: Seq<Seq<char>>, owner: Seq<char>)
    requires
        other != owner,
    ensures
        owner_tags(owner_tag_rows(other, tags), owner) == Seq::<Seq<char>>::empty(),
    decreases tags.len(),
{
    if tags.len() > 0 {
        lemma_owner_tags_other(other, tags.drop_last(), owner);
        assert(owner_tag_rows(other, tags).drop_last() =~= owner_tag_rows(other, tags.drop_last()));
    }
}

/// In the tag rows of a batch of entities with distinct identifiers, the
/// rows of each entity hold exactly its tags.
pub proof fn lemma_batch_owner_tags<E: Tagged>(es: Seq<E>, i: int)
    requires
        unique_keys::<E>(views(es)),
        0 <= i < es.len(),
    ensures
        owner_tags(batch_tag_rows(es), E::key(es[i]@)) == strs_view(es[i].tag_list()),
    decreases es.len(),
{
    let p = es.drop_last();
    let last = es.last();
    let o = E::key(es[i]@);
    lemma_owner_tags_append(
        batch_tag_rows(p),
        owner_tag_rows(E::key(last@), strs_view(last.tag_list())),
        o,
    );
    assert(views(p) =~= views(es).drop_last());
    if i == es.len() - 1 {
        assert forall|k: int| 0 <= k < p.len() implies E::key((#[trigger] p[k])@) != o by {
            assert(p[k] == es[k]);
            assert(views(es)[k] == es[k]@);
            assert(views(es)[i] == es[i]@);
        }
        lemma_batch_owner_tags_none(p, o);
        lemma_owner_tags_round_trip(o, strs_view(last.tag_list()));
        assert(Seq::<Seq<char>>::empty() + strs_view(last.tag_list()) =~= strs_view(
            last.tag_list(),
        ));
    } else {
        assert(views(es)[i] == es[i]@);
        assert(views(es)[es.len() - 1] == last@);
        lemma_batch_owner_tags(p, i);
        lemma_owner_tags_other(E::key(last@), strs_view(last.tag_list()), o);
        assert(p[i] == es[i]);
        assert(strs_view(es[i].tag_list()) + Seq::<Seq<char>>::empty() =~= strs_view(
            es[i].tag_list(),
        ));
    }
}

/// The tag rows of a batch in which no entity has identifier `owner` hold
/// no tag of `owner`.
pub proof fn lemma_batch_owner_tags_none<E: Tagged>(es: Seq<E>, owner: Seq<char>)
    requires
        forall|k: int| 0 <= k < es.len() ==> E::key((#[trigger] es[k])@) != owner,
    ensures
        owner_tags(batch_tag_rows(es), owner) == Seq::<Seq<char>>::empty(),
    decreases es.len(),
{
    if es.len() > 0 {
        let p = es.drop_last();
        assert forall|k: int| 0 <= k < p.len() implies E::key((#[trigger] p[k])@) != owner by {
            assert(p[k] == es[k]);
        }
        lemma_batch_owner_tags_none(p, owner);
        lemma_owner_tags_append(
            batch_tag_rows(p),
            owner_tag_rows(E::key(es.last()@), strs_view(es.last().tag_list())),
            owner,
        );
        assert(es.last() == es[es.len() - 1]);
        lemma_owner_tags_other(E::key(es.last()@), strs_view(es.last().tag_list()), owner);
        assert(Seq::<Seq<char>>::empty() + Seq::<Seq<char>>::empty() =~= Seq::<
            Seq<char>,
        >::empty());
    }
}

/// Tags that are distinct and not blank lose nothing when blank ones are
/// dropped.
pub proof fn lemma_tag_set_of_wf(v: Seq<String>)
    requires
        tags_wf(v),
    ensures
        tag_set(strs_view(v)) == str_set(v),
{
    assert forall|t: Seq<char>| str_set(v).contains(t) implies !is_blank(t) by {
        let k = choose|k: int| 0 <= k < strs_view(v).len() && strs_view(v)[k] == t;
        assert(v[k]@ == t);
    }
    assert(tag_set(strs_view(v)) =~= str_set(v));
}

/// Splits the entities to save into those already stored (whose identifier
/// is one of `existing`), which are updated, and the others, which are
/// inserted; each part keeps the order of `entities`.
pub fn plan_save<E: Entity>(entities: &Vec<E>, existing: &Vec<String>) -> (r: (Vec<E>, Vec<E>))
    ensures
        views(r.0@) == views(entities@).filter(key_in::<E>(str_set(existing@))),
        views(r.1@) == views(entities@).filter(key_not_in::<E>(str_set(existing@))),
{
    (select_by_ids(entities, existing), select_missing(entities, existing))
}

/// A name that no entity uses: `__temp__` and a fresh identifier. Rows
/// being updated take it first, so that two rows can swap names without
/// breaking the uniqueness of names.
pub fn temp_name() -> (r: String)
    ensures
        r@.len() >= 8,
        r@.subrange(0, 8) == "__temp__"@,
{
    proof {
        reveal_strlit("__temp__");
        reveal_strlit("");
    }
    let id = new_id();
    let r = concat3("__temp__", id.as_str(), "");
    assert(r@.subrange(0, 8) =~= "__temp__"@);
    r
}

/// An entity whose tags are stored in a tag table.
pub trait Tagged: Entity {
    /// The tags as the entity lists them.
    spec fn tag_list(&self) -> Seq<String>;

    /// The tags as the entity lists them.
    fn tags_ref(&self) -> (r: &Vec<String>)
        ensures
            r@ == self.tag_list(),
    ;
}

/// The tag rows of a sequence of entities: each entity's rows in turn.
pub open spec fn batch_tag_rows<E: Tagged>(es: Seq<E>) -> Seq<TagRowView>
    decreases es.len(),
{
    if es.len() == 0 {
        Seq::empty()
    } else {
        batch_tag_rows(es.drop_last()) + owner_tag_rows(
            E::key(es.last()@),
            strs_view(es.last().tag_list()),
        )
    }
}

/// The rows that store the tags of the entities, as a batch save writes
/// them after clearing the old tags of those entities.
pub fn tag_rows_of_all<E: Tagged>(es: &Vec<E>) -> (r: Vec<TagRow>)
    ensures
        tag_rows_view(r@) == batch_tag_rows(es@),
{
    let mut r: Vec<TagRow> = Vec::new();
    let n = es.len();
    let mut i: usize = 0;
    while i < n
        invariant
            n == es@.len(),
            i <= n,
            tag_rows_view(r@) == batch_tag_rows(es@.subrange(0, i as int)),
        decreases n - i,
    {
        let mut more = tag_rows(es[i].id(), es[i].tags_ref());
        let ghost before = r@;
        let ghost added = more@;
        r.append(&mut more);
        proof {
            let s = es@.subrange(0, i + 1);
            assert(s.drop_last() =~= es@.subrange(0, i as int));
            assert(s.last() == es@[i as int]);
            assert(tag_rows_view(r@) =~= tag_rows_view(before) + tag_rows_view(added));
        }
        i = i + 1;
    }
    assert(es@.subrange(0, n as int) =~= es@);
    r
}

impl Tagged for Account {
    open spec fn tag_list(&self) -> Seq<String> {
        self.tags@
    }

    fn tags_ref(&self) -> (r: &Vec<String>) {
        &self.tags
    }
}

impl Tagged for Journal {
    open spec fn tag_list(&self) -> Seq<String> {
        self.tags@
    }

    fn tags_ref(&self) -> (r: &Vec<String>) {
        &self.tags
    }
}

/// A row of the account table.
#[derive(Debug)]
pub struct AccountRow {
    pub id: String,
    pub version: i32,
    pub created_at: Option<i64>,
    pub last_modified_at: Option<i64>,
    pub archived_at: Option<i64>,
    pub journal_id: String,
    pub parent_id: Option<String>,
    pub account_type: AccountTypeEnum,
    pub name: String,
    pub description: String,
}

/// The mathematical form of an account row.
pub struct AccountRowView {
    pub id: Seq<char>,
    pub version: i32,
    pub created_at: Option<i64>,
    pub last_modified_at: Option<i64>,
    pub archived_at: Option<i64>,
    pub journal_id: Seq<char>,
    pub parent_id: Option<Seq<char>>,
    pub account_type: AccountTypeEnum,
    pub name: Seq<char>,
    pub description: Seq<char>,
}

impl View for AccountRow {
    type V = AccountRowView;

    open spec fn view(&self) -> AccountRowView {
        AccountRowView {
            id: self.id@,
            version: self.version,
            created_at: self.created_at,
            last_modified_at: self.last_modified_at,
            archived_at: self.archived_at,
            journal_id: self.journal_id@,
            parent_id: opt_str_view(self.parent_id),
            account_type: self.account_type,
            name: self.name@,
            description: self.description@,
        }
    }
}

/// The row that stores an account (its tags go to the tag table); the
/// version is cast to the column's type.
pub open spec fn account_row(a: AccountView) -> AccountRowView {
    AccountRowView {
        id: a.id,
        version: a.version as i32,
        created_at: a.created_at,
        last_modified_at: a.last_modified_at,
        archived_at: a.archived_at,
        journal_id: a.journal_id,
        parent_id: a.parent_id,
        account_type: enum_of_type(a.account_type),
        name: a.name,
        description: a.description,
    }
}

/// The account that a row and its tags stand for: blank tags are dropped.
pub open spec fn account_of_row(row: AccountRowView, tags: Seq<Seq<char>>) -> AccountView {
    AccountView {
        id: row.id,
        version: row.version as usize,
        created_at: row.created_at,
        last_modified_at: row.last_modified_at,
        archived_at: row.archived_at,
        journal_id: row.journal_id,
        parent_id: row.parent_id,
        account_type: type_of_enum(row.account_type),
        name: row.name,
        description: row.description,
        tags: tag_set(tags),
    }
}

/// The error of a stored account whose name is blank.
pub open spec fn account_name_error() -> ErrorView {
    shared_err(SharedErrorKindView::NonEmpty, account_resource(), "name"@)
}

impl SeaOrmAccountRepository {
    /// The row that stores an account.
    pub fn convert_to_active_model(&self, a: &Account) -> (r: AccountRow)
        ensures
            r@ == account_row(a@),
    {
        AccountRow {
            id: a.id.clone(),
            version: a.version as i32,
            created_at: a.created_at,
            last_modified_at: a.last_modified_at,
            archived_at: a.archived_at,
            journal_id: a.journal_id.clone(),
            parent_id: clone_opt_str(&a.parent_id),
            account_type: Self::to_enum(a.account_type),
            name: a.name.clone(),
            description: a.description.clone(),
        }
    }

    /// The row of an account with a temporary name in place of its own.
    pub fn convert_to_temp_active_model(&self, a: &Account) -> (r: AccountRow)
        ensures
            r@ == (AccountRowView { name: r@.name, ..account_row(a@) }),
            r@.name.len() >= 8,
            r@.name.subrange(0, 8) == "__temp__"@,
    {
        let mut r = self.convert_to_active_model(a);
        r.name = temp_name();
        r
    }

    /// The account that a row stands for, with the tags that the tag rows
    /// hold for it; an error where the stored name is blank.
    pub fn convert_to_entity(&self, row: &AccountRow, tags: &Vec<TagRow>) -> (r: Result<
        Account,
        Error,
    >)
        ensures
            is_blank(row.name@) ==> r is Err && r->Err_0@ == account_name_error(),
            !is_blank(row.name@) ==> r is Ok && r->Ok_0@ == account_of_row(
                row@,
                owner_tags(tag_rows_view(tags@), row.id@),
            ) && r->Ok_0.wf(),
    {
        let own = tags_of_owner(tags, &row.id);
        let input = AccountInput {
            id: row.id.clone(),
            version: row.version as usize,
            created_at: row.created_at,
            last_modified_at: row.last_modified_at,
            archived_at: row.archived_at,
            journal_id: row.journal_id.clone(),
            parent_id: clone_opt_str(&row.parent_id),
            account_type: Self::from_enum(&row.account_type),
            name: row.name.clone(),
            description: row.description.clone(),
            tags: own,
        };
        Account::try_from_input(input)
    }

    /// The accounts that the rows stand for, in row order; the error of the
    /// first row whose name is blank, if any.
    pub fn convert_to_entities(&self, rows: &Vec<AccountRow>, tags: &Vec<TagRow>) -> (r: Result<
        Vec<Account>,
        Error,
    >)
        ensures
            r is Ok <==> forall|i: int| 0 <= i < rows@.len() ==> !is_blank(#[trigger] rows@[i].name@),
            r is Ok ==> r->Ok_0@.len() == rows@.len() && forall|i: int|
                0 <= i < rows@.len() ==> (#[trigger] r->Ok_0@[i])@ == account_of_row(
                    rows@[i]@,
                    owner_tags(tag_rows_view(tags@), rows@[i].id@),
                ) && r->Ok_0@[i].wf(),
            r is Err ==> r->Err_0@ == account_name_error(),
    {
        let mut out: Vec<Account> = Vec::new();
        let n = rows.len();
        let mut i: usize = 0;
        while i < n
            invariant
                n == rows@.len(),
                i <= n,
                out@.len() == i,
                forall|k: int| 0 <= k < i ==> !is_blank(#[trigger] rows@[k].name@),
                forall|k: int|
                    0 <= k < i ==> (#[trigger] out@[k])@ == account_of_row(
                        rows@[k]@,
                        owner_tags(tag_rows_view(tags@), rows@[k].id@),
                    ) && out@[k].wf(),
            decreases n - i,
        {
            match self.convert_to_entity(&rows[i], tags) {
                Ok(a) => {
                    out.push(a);
                },
                Err(e) => {
                    return Err(e);
                },
            }
            i = i + 1;
        }
        Ok(out)
    }
}

/// A row of the journal table.
#[derive(Debug)]
pub struct JournalRow {
    pub id: String,
    pub version: i32,
    pub created_at: Option<i64>,
    pub last_modified_at: Option<i64>,
    pub archived_at: Option<i64>,
    pub name: String,
    pub description: String,
}

/// The mathematical form of a journal row.
pub struct JournalRowView {
    pub id: Seq<char>,
    pub version: i32,
    pub created_at: Option<i64>,
    pub last_modified_at: Option<i64>,
    pub archived_at: Option<i64>,
    pub name: Seq<char>,
    pub description: Seq<char>,
}

impl View for JournalRow {
    type V = JournalRowView;

    open spec fn view(&self) -> JournalRowView {
        JournalRowView {
            id: self.id@,
            version: self.version,
            created_at: self.created_at,
            last_modified_at: self.last_modified_at,
            archived_at: self.archived_at,
            name: self.name@,
            description: self.description@,
        }
    }
}

/// The row that stores a journal (its tags go to the tag table); the
/// version is cast to the column's type.
pub open spec fn journal_row(j: JournalView) -> JournalRowView {
    JournalRowView {
        id: j.id,
        version: j.version as i32,
        created_at: j.created_at,
        last_modified_at: j.last_modified_at,
        archived_at: j.archived_at,
        name: j.name,
        description: j.description,
    }
}

/// The journal that a row and its tags stand for: blank tags are dropped.
pub open spec fn journal_of_row(row: JournalRowView, tags: Seq<Seq<char>>) -> JournalView {
    JournalView {
        id: row.id,
        version: row.version as usize,
        created_at: row.created_at,
        last_modified_at: row.last_modified_at,
        archived_at: row.archived_at,
        name: row.name,
        description: row.description,
        tags: tag_set(tags),
    }
}

/// The error of a stored journal whose name is blank.
pub open spec fn journal_name_error() -> ErrorView {
    shared_err(SharedErrorKindView::NonEmpty, journal_resource(), "name"@)
}

impl SeaOrmJournalRepository {
    /// The row that stores a journal.
    pub fn convert_to_active_model(&self, j: &Journal) -> (r: JournalRow)
        ensures
            r@ == journal_row(j@),
    {
        JournalRow {
            id: j.id.clone(),
            version: j.version as i32,
            created_at: j.created_at,
            last_modified_at: j.last_modified_at,
            archived_at: j.archived_at,
            name: j.name.clone(),
            description: j.description.clone(),
        }
    }

    /// The row of a journal with a temporary name in place of its own.
    pub fn convert_to_temp_active_model(&self, j: &Journal) -> (r: JournalRow)
        ensures
            r@ == (JournalRowView { name: r@.name, ..journal_row(j@) }),
            r@.name.len() >= 8,
            r@.name.subrange(0, 8) == "__temp__"@,
    {
        let mut r = self.convert_to_active_model(j);
        r.name = temp_name();
        r
    }

    /// The journal that a row stands for, with the tags that the tag rows
    /// hold for it; an error where the stored name is blank.
    pub fn convert_to_entity(&self, row: &JournalRow, tags: &Vec<TagRow>) -> (r: Result<
        Journal,
        Error,
    >)
        ensures
            is_blank(row.name@) ==> r is Err && r->Err_0@ == journal_name_error(),
            !is_blank(row.name@) ==> r is Ok && r->Ok_0@ == journal_of_row(
                row@,
                owner_tags(tag_rows_view(tags@), row.id@),
            ) && r->Ok_0.wf(),
    {
        let own = tags_of_owner(tags, &row.id);
        let input = JournalInput {
            id: row.id.clone(),
            version: row.version as usize,
            created_at: row.created_at,
            last_modified_at: row.last_modified_at,
            archived_at: row.archived_at,
            name: row.name.clone(),
            description: row.description.clone(),
            tags: own,
        };
        Journal::try_from_input(input)
    }

    /// The journals that the rows stand for, in row order; the error of the
    /// first row whose name is blank, if any.
    pub fn convert_to_entities(&self, rows: &Vec<JournalRow>, tags: &Vec<TagRow>) -> (r: Result<
        Vec<Journal>,
        Error,
    >)
        ensures
            r is Ok <==> forall|i: int| 0 <= i < rows@.len() ==> !is_blank(#[trigger] rows@[i].name@),
            r is Ok ==> r->Ok_0@.len() == rows@.len() && forall|i: int|
                0 <= i < rows@.len() ==> (#[trigger] r->Ok_0@[i])@ == journal_of_row(
                    rows@[i]@,
                    owner_tags(tag_rows_view(tags@), rows@[i].id@),
                ) && r->Ok_0@[i].wf(),
            r is Err ==> r->Err_0@ == journal_name_error(),
    {
        let mut out: Vec<Journal> = Vec::new();
        let n = rows.len();
        let mut i: usize = 0;
        while i < n
            invariant
                n == rows@.len(),
                i <= n,
                out@.len() == i,
                forall|k: int| 0 <= k < i ==> !is_blank(#[trigger] rows@[k].name@),
                forall|k: int|
                    0 <= k < i ==> (#[trigger] out@[k])@ == journal_of_row(
                        rows@[k]@,
                        owner_tags(tag_rows_view(tags@), rows@[k].id@),
                    ) && out@[k].wf(),
            decreases n - i,
        {
            match self.convert_to_entity(&rows[i], tags) {
                Ok(j) => {
                    out.push(j);
                },
                Err(e) => {
                    return Err(e);
                },
            }
            i = i + 1;
        }
        Ok(out)
    }
}

} // verus!
