//! What a list shows: which items, in what order, and which part of them.

use vstd::prelude::*;

use crate::cli::FilterArgs;
use crate::error::{invalid, invalid_field, CloveError, ErrorView};
use crate::registry::install::borrowed;
use crate::text;

verus! {

// ---- Words --------------------------------------------------------------------

/// The state of an item.
#[derive(Debug, Clone, Copy, PartialEq, Eq, Structural)]
pub enum ItemStatus {
    Open,
    InProgress,
    Closed,
}

/// The kind of an item.
#[derive(Debug, Clone, Copy, PartialEq, Eq, Structural)]
pub enum ItemType {
    Bug,
    Feature,
    Chore,
    Docs,
    Epic,
}

impl DeepView for ItemStatus {
    type V = ItemStatus;

    open spec fn deep_view(&self) -> ItemStatus {
        *self
    }
}

impl DeepView for ItemType {
    type V = ItemType;

    open spec fn deep_view(&self) -> ItemType {
        *self
    }
}

impl ItemStatus {
    /// The word for a status.
    pub open spec fn word(self) -> Seq<char> {
        match self {
            ItemStatus::Open => "open"@,
            ItemStatus::InProgress => "in_progress"@,
            ItemStatus::Closed => "closed"@,
        }
    }

    pub fn as_str(self) -> (r: &'static str)
        ensures
            r@ == self.word(),
    {
        match self {
            ItemStatus::Open => "open",
            ItemStatus::InProgress => "in_progress",
            ItemStatus::Closed => "closed",
        }
    }

    /// The place of a status in a sorted list.
    pub open spec fn place(self) -> int {
        match self {
            ItemStatus::Open => 0,
            ItemStatus::InProgress => 1,
            ItemStatus::Closed => 2,
        }
    }

    pub fn position(self) -> (r: u64)
        ensures
            r == self.place(),
    {
        match self {
            ItemStatus::Open => 0,
            ItemStatus::InProgress => 1,
            ItemStatus::Closed => 2,
        }
    }
}

impl ItemType {
    /// The word for a type.
    pub open spec fn word(self) -> Seq<char> {
        match self {
            ItemType::Bug => "bug"@,
            ItemType::Feature => "feature"@,
            ItemType::Chore => "chore"@,
            ItemType::Docs => "docs"@,
            ItemType::Epic => "epic"@,
        }
    }

    pub fn as_str(self) -> (r: &'static str)
        ensures
            r@ == self.word(),
    {
        match self {
            ItemType::Bug => "bug",
            ItemType::Feature => "feature",
            ItemType::Chore => "chore",
            ItemType::Docs => "docs",
            ItemType::Epic => "epic",
        }
    }

    /// The place of a type in a sorted list.
    pub open spec fn place(self) -> int {
        match self {
            ItemType::Bug => 0,
            ItemType::Feature => 1,
            ItemType::Chore => 2,
            ItemType::Docs => 3,
            ItemType::Epic => 4,
        }
    }

    pub fn position(self) -> (r: u64)
        ensures
            r == self.place(),
    {
        match self {
            ItemType::Bug => 0,
            ItemType::Feature => 1,
            ItemType::Chore => 2,
            ItemType::Docs => 3,
            ItemType::Epic => 4,
        }
    }
}

/// The status that a word stands for; `started` is another word for work in progress.
pub open spec fn status_of(raw: Seq<char>) -> Result<ItemStatus, ErrorView> {
    if raw == "open"@ {
        Ok(ItemStatus::Open)
    } else if raw == "in_progress"@ || raw == "started"@ {
        Ok(ItemStatus::InProgress)
    } else if raw == "closed"@ {
        Ok(ItemStatus::Closed)
    } else {
        Err(invalid_field("status"@, "expected open|in_progress|closed, got `"@ + raw + "`"@))
    }
}

/// Reads the word for a status.
pub fn parse_status(raw: &str) -> (r: Result<ItemStatus, CloveError>)
    ensures
        crate::error::outcome(r) == status_of(raw@),
{
    if text::same(raw, "open") {
        Ok(ItemStatus::Open)
    } else if text::same(raw, "in_progress") || text::same(raw, "started") {
        Ok(ItemStatus::InProgress)
    } else if text::same(raw, "closed") {
        Ok(ItemStatus::Closed)
    } else {
        Err(invalid("status", text::cat3("expected open|in_progress|closed, got `", raw, "`")))
    }
}

/// The type that a word stands for.
pub open spec fn type_of(raw: Seq<char>) -> Result<ItemType, ErrorView> {
    if raw == "bug"@ {
        Ok(ItemType::Bug)
    } else if raw == "feature"@ {
        Ok(ItemType::Feature)
    } else if raw == "chore"@ {
        Ok(ItemType::Chore)
    } else if raw == "docs"@ {
        Ok(ItemType::Docs)
    } else if raw == "epic"@ {
        Ok(ItemType::Epic)
    } else {
        Err(invalid_field("type"@, "expected bug|feature|chore|docs|epic, got `"@ + raw + "`"@))
    }
}

/// Reads the word for a type.
pub fn parse_type(raw: &str) -> (r: Result<ItemType, CloveError>)
    ensures
        crate::error::outcome(r) == type_of(raw@),
{
    if text::same(raw, "bug") {
        Ok(ItemType::Bug)
    } else if text::same(raw, "feature") {
        Ok(ItemType::Feature)
    } else if text::same(raw, "chore") {
        Ok(ItemType::Chore)
    } else if text::same(raw, "docs") {
        Ok(ItemType::Docs)
    } else if text::same(raw, "epic") {
        Ok(ItemType::Epic)
    } else {
        Err(invalid("type", text::cat3("expected bug|feature|chore|docs|epic, got `", raw, "`")))
    }
}

/// The priority that a word stands for: 0, the highest, to 4.
pub open spec fn priority_of(raw: Seq<char>) -> Result<u8, ErrorView> {
    if raw == "0"@ {
        Ok(0u8)
    } else if raw == "1"@ {
        Ok(1u8)
    } else if raw == "2"@ {
        Ok(2u8)
    } else if raw == "3"@ {
        Ok(3u8)
    } else if raw == "4"@ {
        Ok(4u8)
    } else {
        Err(invalid_field("priority"@, "expected 0-4, got `"@ + raw + "`"@))
    }
}

/// Reads a priority.
pub fn parse_priority(raw: &str) -> (r: Result<u8, CloveError>)
    ensures
        match r {
            Ok(p) => priority_of(raw@) == Ok::<u8, ErrorView>(p),
            Err(e) => priority_of(raw@) == Err::<u8, ErrorView>(e.deep_view()),
        },
{
    if text::same(raw, "0") {
        Ok(0u8)
    } else if text::same(raw, "1") {
        Ok(1u8)
    } else if text::same(raw, "2") {
        Ok(2u8)
    } else if text::same(raw, "3") {
        Ok(3u8)
    } else if text::same(raw, "4") {
        Ok(4u8)
    } else {
        Err(invalid("priority", text::cat3("expected 0-4, got `", raw, "`")))
    }
}

// ---- Filters ------------------------------------------------------------------

/// A filter set. An empty list, or no value, does not constrain.
#[derive(Debug, PartialEq, Eq)]
pub struct Filters {
    /// Any of these.
    pub status: Vec<ItemStatus>,
    /// Any of these.
    pub item_type: Vec<ItemType>,
    /// All of these.
    pub label: Vec<String>,
    /// Exactly this one.
    pub assignee: Option<String>,
    /// Any of these.
    pub priority: Vec<u8>,
    /// A part of the id, the title or a label, whatever the case.
    pub q: Option<String>,
}

/// The model of [`Filters`].
pub struct FiltersView {
    pub status: Seq<ItemStatus>,
    pub item_type: Seq<ItemType>,
    pub label: Seq<Seq<char>>,
    pub assignee: Option<Seq<char>>,
    pub priority: Seq<u8>,
    pub q: Option<Seq<char>>,
}

impl DeepView for Filters {
    type V = FiltersView;

    open spec fn deep_view(&self) -> FiltersView {
        FiltersView {
            status: self.status@,
            item_type: self.item_type@,
            label: self.label.deep_view(),
            assignee: self.assignee.deep_view(),
            priority: self.priority@,
            q: self.q.deep_view(),
        }
    }
}

/// The statuses that a list of words stands for; the first bad word fails it.
pub open spec fn statuses_of(raw: Seq<Seq<char>>) -> Result<Seq<ItemStatus>, ErrorView>
    decreases raw.len(),
{
    if raw.len() == 0 {
        Ok(Seq::empty())
    } else {
        match statuses_of(raw.drop_last()) {
            Err(e) => Err(e),
            Ok(rest) => match status_of(raw.last()) {
                Ok(s) => Ok(rest.push(s)),
                Err(e) => Err(e),
            },
        }
    }
}

/// The types that a list of words stands for; the first bad word fails it.
pub open spec fn types_of(raw: Seq<Seq<char>>) -> Result<Seq<ItemType>, ErrorView>
    decreases raw.len(),
{
    if raw.len() == 0 {
        Ok(Seq::empty())
    } else {
        match types_of(raw.drop_last()) {
            Err(e) => Err(e),
            Ok(rest) => match type_of(raw.last()) {
                Ok(s) => Ok(rest.push(s)),
                Err(e) => Err(e),
            },
        }
    }
}

/// The priorities that a list of words stands for; the first bad word fails it.
pub open spec fn priorities_of(raw: Seq<Seq<char>>) -> Result<Seq<u8>, ErrorView>
    decreases raw.len(),
{
    if raw.len() == 0 {
        Ok(Seq::empty())
    } else {
        match priorities_of(raw.drop_last()) {
            Err(e) => Err(e),
            Ok(rest) => match priority_of(raw.last()) {
                Ok(s) => Ok(rest.push(s)),
                Err(e) => Err(e),
            },
        }
    }
}

/// Once a prefix of the words fails, so do all of them, and in the same way.
proof fn lemma_statuses_fail(raw: Seq<Seq<char>>, n: int)
    requires
        0 <= n <= raw.len(),
        statuses_of(raw.take(n)) is Err,
    ensures
        statuses_of(raw) == statuses_of(raw.take(n)),
    decreases raw.len() - n,
{
    if n < raw.len() {
        assert(raw.take(n + 1).drop_last() =~= raw.take(n));
        lemma_statuses_fail(raw, n + 1);
    } else {
        assert(raw.take(n) =~= raw);
    }
}

proof fn lemma_types_fail(raw: Seq<Seq<char>>, n: int)
    requires
        0 <= n <= raw.len(),
        types_of(raw.take(n)) is Err,
    ensures
        types_of(raw) == types_of(raw.take(n)),
    decreases raw.len() - n,
{
    if n < raw.len() {
        assert(raw.take(n + 1).drop_last() =~= raw.take(n));
        lemma_types_fail(raw, n + 1);
    } else {
        assert(raw.take(n) =~= raw);
    }
}

proof fn lemma_priorities_fail(raw: Seq<Seq<char>>, n: int)
    requires
        0 <= n <= raw.len(),
        priorities_of(raw.take(n)) is Err,
    ensures
        priorities_of(raw) == priorities_of(raw.take(n)),
    decreases raw.len() - n,
{
    if n < raw.len() {
        assert(raw.take(n + 1).drop_last() =~= raw.take(n));
        lemma_priorities_fail(raw, n + 1);
    } else {
        assert(raw.take(n) =~= raw);
    }
}

fn parse_statuses(raw: &Vec<String>) -> (r: Result<Vec<ItemStatus>, CloveError>)
    ensures
        match r {
            Ok(v) => statuses_of(raw.deep_view()) == Ok::<Seq<ItemStatus>, ErrorView>(v@),
            Err(e) => statuses_of(raw.deep_view()) == Err::<Seq<ItemStatus>, ErrorView>(
                e.deep_view(),
            ),
        },
{
    let ghost all = raw.deep_view();
    let mut out: Vec<ItemStatus> = Vec::new();
    let mut i: usize = 0;
    assert(out@ =~= Seq::<ItemStatus>::empty());
    while i < raw.len()
        invariant
            i <= raw.len(),
            all == raw.deep_view(),
            statuses_of(all.take(i as int)) == Ok::<Seq<ItemStatus>, ErrorView>(out@),
        decreases raw.len() - i,
    {
        assert(all.take(i + 1).drop_last() =~= all.take(i as int));
        assert(all[i as int] == raw@[i as int]@);
        match parse_status(raw[i].as_str()) {
            Ok(s) => out.push(s),
            Err(e) => {
                proof {
                    lemma_statuses_fail(all, i + 1);
                }
                return Err(e);
            },
        }
        i += 1;
    }
    assert(all.take(i as int) =~= all);
    Ok(out)
}

fn parse_types(raw: &Vec<String>) -> (r: Result<Vec<ItemType>, CloveError>)
    ensures
        match r {
            Ok(v) => types_of(raw.deep_view()) == Ok::<Seq<ItemType>, ErrorView>(v@),
            Err(e) => types_of(raw.deep_view()) == Err::<Seq<ItemType>, ErrorView>(e.deep_view()),
        },
{
    let ghost all = raw.deep_view();
    let mut out: Vec<ItemType> = Vec::new();
    let mut i: usize = 0;
    assert(out@ =~= Seq::<ItemType>::empty());
    while i < raw.len()
        invariant
            i <= raw.len(),
            all == raw.deep_view(),
            types_of(all.take(i as int)) == Ok::<Seq<ItemType>, ErrorView>(out@),
        decreases raw.len() - i,
    {
        assert(all.take(i + 1).drop_last() =~= all.take(i as int));
        assert(all[i as int] == raw@[i as int]@);
        match parse_type(raw[i].as_str()) {
            Ok(s) => out.push(s),
            Err(e) => {
                proof {
                    lemma_types_fail(all, i + 1);
                }
                return Err(e);
            },
        }
        i += 1;
    }
    assert(all.take(i as int) =~= all);
    Ok(out)
}

fn parse_priorities(raw: &Vec<String>) -> (r: Result<Vec<u8>, CloveError>)
    ensures
        match r {
            Ok(v) => priorities_of(raw.deep_view()) == Ok::<Seq<u8>, ErrorView>(v@),
            Err(e) => priorities_of(raw.deep_view()) == Err::<Seq<u8>, ErrorView>(e.deep_view()),
        },
{
    let ghost all = raw.deep_view();
    let mut out: Vec<u8> = Vec::new();
    let mut i: usize = 0;
    assert(out@ =~= Seq::<u8>::empty());
    while i < raw.len()
        invariant
            i <= raw.len(),
            all == raw.deep_view(),
            priorities_of(all.take(i as int)) == Ok::<Seq<u8>, ErrorView>(out@),
        decreases raw.len() - i,
    {
        assert(all.take(i + 1).drop_last() =~= all.take(i as int));
        assert(all[i as int] == raw@[i as int]@);
        match parse_priority(raw[i].as_str()) {
            Ok(s) => out.push(s),
            Err(e) => {
                proof {
                    lemma_priorities_fail(all, i + 1);
                }
                return Err(e);
            },
        }
        i += 1;
    }
    assert(all.take(i as int) =~= all);
    Ok(out)
}

/// Labels in their canonical form, which ignores case.
pub open spec fn canonical_labels(raw: Seq<Seq<char>>) -> Seq<Seq<char>> {
    Seq::new(raw.len(), |i: int| text::lowercase(raw[i]))
}

fn canonical(raw: &Vec<String>) -> (r: Vec<String>)
    ensures
        r.deep_view() == canonical_labels(raw.deep_view()),
{
    let mut out: Vec<String> = Vec::new();
    let mut i: usize = 0;
    while i < raw.len()
        invariant
            i <= raw.len(),
            out.len() == i,
            forall|j: int|
                0 <= j < i ==> (#[trigger] out@[j])@ == text::lowercase(raw@[j]@),
        decreases raw.len() - i,
    {
        out.push(text::to_lowercase(raw[i].as_str()));
        i += 1;
    }
    assert(out.deep_view() =~= canonical_labels(raw.deep_view()));
    out
}

/// The filter set that lists of words stand for. A value that is none fails it: the
/// statuses are read first, then the types, then the priorities.
pub open spec fn filters_of(
    status: Seq<Seq<char>>,
    item_type: Seq<Seq<char>>,
    label: Seq<Seq<char>>,
    assignee: Option<Seq<char>>,
    priority: Seq<Seq<char>>,
    q: Option<Seq<char>>,
) -> Result<FiltersView, ErrorView> {
    match statuses_of(status) {
        Err(e) => Err(e),
        Ok(s) => match types_of(item_type) {
            Err(e) => Err(e),
            Ok(t) => match priorities_of(priority) {
                Err(e) => Err(e),
                Ok(p) => Ok(
                    FiltersView {
                        status: s,
                        item_type: t,
                        label: canonical_labels(label),
                        assignee,
                        priority: p,
                        q,
                    },
                ),
            },
        },
    }
}

pub fn owned(s: Option<&str>) -> (r: Option<String>)
    ensures
        r.deep_view() == text::opt_view(s),
{
    match s {
        Some(s) => Some(s.to_owned()),
        None => None,
    }
}

impl Filters {
    /// Reads a filter set.
    pub fn parse_multi(
        status: &Vec<String>,
        item_type: &Vec<String>,
        label: &Vec<String>,
        assignee: Option<&str>,
        priority: &Vec<String>,
        q: Option<&str>,
    ) -> (r: Result<Filters, CloveError>)
        ensures
            crate::error::outcome(r) == filters_of(
                status.deep_view(),
                item_type.deep_view(),
                label.deep_view(),
                text::opt_view(assignee),
                priority.deep_view(),
                text::opt_view(q),
            ),
    {
        let s = match parse_statuses(status) {
            Ok(v) => v,
            Err(e) => return Err(e),
        };
        let t = match parse_types(item_type) {
            Ok(v) => v,
            Err(e) => return Err(e),
        };
        let p = match parse_priorities(priority) {
            Ok(v) => v,
            Err(e) => return Err(e),
        };
        Ok(
            Filters {
                status: s,
                item_type: t,
                label: canonical(label),
                assignee: owned(assignee),
                priority: p,
                q: owned(q),
            },
        )
    }
}

impl FilterArgs {
    /// The requested filter set.
    pub fn filters(&self) -> (r: Result<Filters, CloveError>)
        ensures
            crate::error::outcome(r) == filters_of(
                self.status.deep_view(),
                self.item_type.deep_view(),
                self.label.deep_view(),
                self.assignee.deep_view(),
                crate::cli::spelled(self.priority@),
                self.q.deep_view(),
            ),
    {
        let priority = self.priority_words();
        Filters::parse_multi(
            &self.status,
            &self.item_type,
            &self.label,
            borrowed(&self.assignee),
            &priority,
            borrowed(&self.q),
        )
    }
}

// ---- Which items --------------------------------------------------------------

/// What a filter, an order and a search read of an item.
#[derive(Debug, PartialEq, Eq)]
pub struct Row {
    pub id: String,
    pub title: String,
    pub status: ItemStatus,
    pub item_type: ItemType,
    pub priority: u8,
    pub labels: Vec<String>,
    pub assignee: Option<String>,
    /// When it was made, and last changed, in seconds.
    pub created: i64,
    pub updated: i64,
    /// Its place in the dependency order.
    pub rank: u64,
}

/// The model of a [`Row`].
pub struct RowView {
    pub id: Seq<char>,
    pub title: Seq<char>,
    pub status: ItemStatus,
    pub item_type: ItemType,
    pub priority: u8,
    pub labels: Seq<Seq<char>>,
    pub assignee: Option<Seq<char>>,
    pub created: i64,
    pub updated: i64,
    pub rank: u64,
}

impl DeepView for Row {
    type V = RowView;

    open spec fn deep_view(&self) -> RowView {
        RowView {
            id: self.id@,
            title: self.title@,
            status: self.status,
            item_type: self.item_type,
            priority: self.priority,
            labels: self.labels.deep_view(),
            assignee: self.assignee.deep_view(),
            created: self.created,
            updated: self.updated,
            rank: self.rank,
        }
    }
}

/// Is `part` a part of `s`, whatever the case?
pub open spec fn mentions(s: Seq<char>, part: Seq<char>) -> bool {
    text::occurs(text::lowercase(s), text::lowercase(part))
}

/// Does one of the texts mention `part`?
pub open spec fn any_mentions(all: Seq<Seq<char>>, part: Seq<char>) -> bool {
    exists|i: int| 0 <= i < all.len() && mentions(#[trigger] all[i], part)
}

/// Does a filter set keep an item?
pub open spec fn keeps(f: FiltersView, r: RowView) -> bool {
    &&& f.status.len() == 0 || f.status.contains(r.status)
    &&& f.item_type.len() == 0 || f.item_type.contains(r.item_type)
    &&& f.priority.len() == 0 || f.priority.contains(r.priority)
    &&& forall|i: int| 0 <= i < f.label.len() ==> r.labels.contains(#[trigger] f.label[i])
    &&& f.assignee is Some ==> r.assignee == f.assignee
    &&& f.q matches Some(q) ==> mentions(r.id, q) || mentions(r.title, q) || any_mentions(
        r.labels,
        q,
    )
}

fn has_status(v: &Vec<ItemStatus>, x: ItemStatus) -> (r: bool)
    ensures
        r == v@.contains(x),
{
    let mut i: usize = 0;
    while i < v.len()
        invariant
            i <= v.len(),
            forall|j: int| 0 <= j < i ==> v@[j] != x,
        decreases v.len() - i,
    {
        if v[i] == x {
            assert(v@[i as int] == x);
            return true;
        }
        i += 1;
    }
    false
}

fn has_type(v: &Vec<ItemType>, x: ItemType) -> (r: bool)
    ensures
        r == v@.contains(x),
{
    let mut i: usize = 0;
    while i < v.len()
        invariant
            i <= v.len(),
            forall|j: int| 0 <= j < i ==> v@[j] != x,
        decreases v.len() - i,
    {
        if v[i] == x {
            assert(v@[i as int] == x);
            return true;
        }
        i += 1;
    }
    false
}

fn has_priority(v: &Vec<u8>, x: u8) -> (r: bool)
    ensures
        r == v@.contains(x),
{
    let mut i: usize = 0;
    while i < v.len()
        invariant
            i <= v.len(),
            forall|j: int| 0 <= j < i ==> v@[j] != x,
        decreases v.len() - i,
    {
        if v[i] == x {
            assert(v@[i as int] == x);
            return true;
        }
        i += 1;
    }
    false
}

/// Is `x` one of the texts?
pub fn has_text(v: &Vec<String>, x: &str) -> (r: bool)
    ensures
        r == v.deep_view().contains(x@),
{
    let ghost all = v.deep_view();
    let mut i: usize = 0;
    while i < v.len()
        invariant
            i <= v.len(),
            all == v.deep_view(),
            forall|j: int| 0 <= j < i ==> all[j] != x@,
        decreases v.len() - i,
    {
        assert(all[i as int] == v@[i as int]@);
        if text::same(v[i].as_str(), x) {
            assert(all[i as int] == x@);
            return true;
        }
        i += 1;
    }
    false
}

/// Does `s` mention the text whose lower case is `part`?
pub fn mentioned(s: &str, part: &str) -> (r: bool)
    ensures
        r == mentions(s@, part@),
{
    let a = text::to_lowercase(s);
    let b = text::to_lowercase(part);
    text::contains(a.as_str(), b.as_str())
}

/// Does one of the texts mention `part`?
pub fn any_mentioned(v: &Vec<String>, part: &str) -> (r: bool)
    ensures
        r == any_mentions(v.deep_view(), part@),
{
    let ghost all = v.deep_view();
    let mut i: usize = 0;
    while i < v.len()
        invariant
            i <= v.len(),
            all == v.deep_view(),
            forall|j: int| 0 <= j < i ==> !mentions(#[trigger] all[j], part@),
        decreases v.len() - i,
    {
        assert(all[i as int] == v@[i as int]@);
        if mentioned(v[i].as_str(), part) {
            assert(mentions(all[i as int], part@));
            return true;
        }
        i += 1;
    }
    false
}

impl Filters {
    /// Does the filter set keep the item?
    pub fn matches(&self, row: &Row) -> (r: bool)
        ensures
            r == keeps(self.deep_view(), row.deep_view()),
    {
        let ghost f = self.deep_view();
        let ghost v = row.deep_view();
        if self.status.len() > 0 && !has_status(&self.status, row.status) {
            return false;
        }
        if self.item_type.len() > 0 && !has_type(&self.item_type, row.item_type) {
            return false;
        }
        if self.priority.len() > 0 && !has_priority(&self.priority, row.priority) {
            return false;
        }
        let mut i: usize = 0;
        while i < self.label.len()
            invariant
                i <= self.label.len(),
                f == self.deep_view(),
                v == row.deep_view(),
                forall|j: int| 0 <= j < i ==> v.labels.contains(#[trigger] f.label[j]),
            decreases self.label.len() - i,
        {
            assert(f.label[i as int] == self.label@[i as int]@);
            if !has_text(&row.labels, self.label[i].as_str()) {
                assert(!v.labels.contains(f.label[i as int]));
                return false;
            }
            i += 1;
        }
        if let Some(want) = &self.assignee {
            match &row.assignee {
                Some(who) => {
                    if !text::same(who.as_str(), want.as_str()) {
                        return false;
                    }
                },
                None => {
                    return false;
                },
            }
        }
        if let Some(q) = &self.q {
            if !mentioned(row.id.as_str(), q.as_str()) && !mentioned(row.title.as_str(), q.as_str())
                && !any_mentioned(&row.labels, q.as_str()) {
                return false;
            }
        }
        true
    }
}

/// A filter set without a constraint keeps every item.
pub proof fn law_no_filter_keeps_everything(f: FiltersView, r: RowView)
    requires
        f.status.len() == 0,
        f.item_type.len() == 0,
        f.label.len() == 0,
        f.assignee is None,
        f.priority.len() == 0,
        f.q is None,
    ensures
        keeps(f, r),
{
}

/// One more status, type or priority never drops an item from a list that had some, and
/// one more label never adds one.
pub proof fn law_any_of_widens_and_all_of_narrows(
    f: FiltersView,
    r: RowView,
    status: ItemStatus,
    label: Seq<char>,
)
    requires
        f.status.len() > 0,
    ensures
        keeps(f, r) ==> keeps(FiltersView { status: f.status.push(status), ..f }, r),
        keeps(FiltersView { label: f.label.push(label), ..f }, r) ==> keeps(f, r),
{
    if keeps(f, r) {
        let k = choose|k: int| 0 <= k < f.status.len() && f.status[k] == r.status;
        assert(f.status.push(status)[k] == r.status);
    }
    let more = FiltersView { label: f.label.push(label), ..f };
    if keeps(more, r) {
        assert forall|i: int| 0 <= i < f.label.len() implies r.labels.contains(
            #[trigger] f.label[i],
        ) by {
            assert(more.label[i] == f.label[i]);
        }
    }
}

// ---- The part that is shown ---------------------------------------------------

/// The default limit of a list.
pub const CLI_LIMIT: usize = 100;

/// The part of a list that is asked for.
#[derive(Debug, Clone, Copy, PartialEq, Eq, Structural)]
pub struct Page {
    pub offset: usize,
    /// How many at most; none is no limit.
    pub limit: Option<usize>,
}

/// The limit in force: the default without one, and none for 0.
pub open spec fn limit_in_force(limit: Option<usize>, default: usize) -> Option<usize> {
    match limit {
        None => if default == 0 {
            None
        } else {
            Some(default)
        },
        Some(n) => if n == 0 {
            None
        } else {
            Some(n)
        },
    }
}

/// A limit as it is reported: 0 where there is none.
pub open spec fn limit_reported(limit: Option<usize>) -> usize {
    match limit {
        None => 0,
        Some(n) => n,
    }
}

impl Page {
    /// The page that `offset` and `limit` ask for.
    pub fn new(offset: usize, limit: Option<usize>, default: usize) -> (r: Page)
        ensures
            r == (Page { offset, limit: limit_in_force(limit, default) }),
    {
        let n = match limit {
            None => default,
            Some(n) => n,
        };
        Page {
            offset,
            limit: if n == 0 {
                None
            } else {
                Some(n)
            },
        }
    }

    /// The limit as it is reported: 0 for none.
    pub fn reported_limit(self) -> (r: usize)
        ensures
            r == limit_reported(self.limit),
    {
        match self.limit {
            None => 0,
            Some(n) => n,
        }
    }

    /// Where the page begins in a list of `total`.
    pub open spec fn first(self, total: int) -> int {
        if self.offset < total {
            self.offset as int
        } else {
            total
        }
    }

    /// Where the page ends in a list of `total`.
    pub open spec fn end(self, total: int) -> int {
        match self.limit {
            None => total,
            Some(n) => if self.first(total) + n < total {
                self.first(total) + n
            } else {
                total
            },
        }
    }

    /// The bounds of the page in a list of `total`.
    pub fn bounds(self, total: usize) -> (r: (usize, usize))
        ensures
            r.0 == self.first(total as int),
            r.1 == self.end(total as int),
            r.0 <= r.1 <= total,
    {
        let first = if self.offset < total {
            self.offset
        } else {
            total
        };
        let end = match self.limit {
            None => total,
            Some(n) => if n < total - first {
                first + n
            } else {
                total
            },
        };
        (first, end)
    }
}

/// A page of a list.
pub open spec fn page_of<T>(all: Seq<T>, page: Page) -> Seq<T> {
    all.subrange(page.first(all.len() as int), page.end(all.len() as int))
}

/// Pages that follow each other show each item of the list once: a page and what comes
/// after it are what comes from its offset on.
pub proof fn law_pages_follow_each_other<T>(all: Seq<T>, offset: usize, n: usize)
    requires
        n > 0,
        offset + n <= usize::MAX,
    ensures
        page_of(all, Page { offset, limit: Some(n) }) + page_of(
            all,
            Page { offset: (offset + n) as usize, limit: None },
        ) == page_of(all, Page { offset, limit: None }),
{
    assert(page_of(all, Page { offset, limit: Some(n) }) + page_of(
        all,
        Page { offset: (offset + n) as usize, limit: None },
    ) =~= page_of(all, Page { offset, limit: None }));
}

/// Without a limit and an offset the page is the whole list.
pub proof fn law_no_limit_shows_everything<T>(all: Seq<T>)
    ensures
        page_of(all, Page { offset: 0, limit: limit_in_force(Some(0usize), CLI_LIMIT) }) == all,
{
    assert(page_of(all, Page { offset: 0, limit: None }) =~= all);
}

// ---- What a filter set asks for -------------------------------------------------

/// A filter set asks for nothing but types: an item is kept if, and only if, it has one of
/// them. The same of statuses and of priorities; of an assignee it must be the item's, and
/// every label must be on the item.
pub proof fn law_one_constraint_keeps_what_meets_it(f: FiltersView, r: RowView)
    ensures
        f.item_type.len() > 0 && keeps(f, r) ==> f.item_type.contains(r.item_type),
        f.status.len() > 0 && keeps(f, r) ==> f.status.contains(r.status),
        f.priority.len() > 0 && keeps(f, r) ==> f.priority.contains(r.priority),
        f.assignee is Some && keeps(f, r) ==> r.assignee == f.assignee,
        forall|i: int| 0 <= i < f.label.len() && keeps(f, r) ==> r.labels.contains(
            #[trigger] f.label[i],
        ),
        f.q matches Some(q) ==> (keeps(f, r) ==> {
            ||| text::occurs(text::lowercase(r.id), text::lowercase(q))
            ||| text::occurs(text::lowercase(r.title), text::lowercase(q))
            ||| exists|i: int|
                0 <= i < r.labels.len() && text::occurs(
                    text::lowercase(#[trigger] r.labels[i]),
                    text::lowercase(q),
                )
        }),
{
    if let Some(q) = f.q {
        if keeps(f, r) && any_mentions(r.labels, q) {
            let i = choose|i: int| 0 <= i < r.labels.len() && mentions(#[trigger] r.labels[i], q);
            assert(mentions(r.labels[i], q));
        }
    }
}

/// An item that has one of the types, and that the set would keep if it asked for no type, is
/// kept; the same of statuses, of priorities, of the assignee, of the labels and of the text.
pub proof fn law_what_meets_a_constraint_is_kept(f: FiltersView, r: RowView)
    ensures
        keeps(FiltersView { item_type: Seq::empty(), ..f }, r) && f.item_type.contains(r.item_type)
            ==> keeps(f, r),
        keeps(FiltersView { status: Seq::empty(), ..f }, r) && f.status.contains(r.status) ==> keeps(
            f,
            r,
        ),
        keeps(FiltersView { priority: Seq::empty(), ..f }, r) && f.priority.contains(r.priority)
            ==> keeps(f, r),
        keeps(FiltersView { assignee: None, ..f }, r) && r.assignee == f.assignee ==> keeps(f, r),
        keeps(FiltersView { label: Seq::empty(), ..f }, r) && (forall|i: int|
            0 <= i < f.label.len() ==> r.labels.contains(#[trigger] f.label[i])) ==> keeps(f, r),
        f.q matches Some(q) ==> (keeps(FiltersView { q: None, ..f }, r) && {
            ||| text::occurs(text::lowercase(r.id), text::lowercase(q))
            ||| text::occurs(text::lowercase(r.title), text::lowercase(q))
            ||| exists|i: int|
                0 <= i < r.labels.len() && text::occurs(
                    text::lowercase(#[trigger] r.labels[i]),
                    text::lowercase(q),
                )
        } ==> keeps(f, r)),
{
    let t = FiltersView { item_type: Seq::empty(), ..f };
    let s = FiltersView { status: Seq::empty(), ..f };
    let p = FiltersView { priority: Seq::empty(), ..f };
    let a = FiltersView { assignee: None, ..f };
    let n = FiltersView { q: None, ..f };
    assert forall|i: int|
        0 <= i < f.label.len() && (keeps(t, r) || keeps(s, r) || keeps(p, r) || keeps(a, r) || keeps(
            n,
            r,
        )) implies r.labels.contains(#[trigger] f.label[i]) by {
        assert(t.label[i] == f.label[i] && s.label[i] == f.label[i] && p.label[i] == f.label[i]);
        assert(a.label[i] == f.label[i] && n.label[i] == f.label[i]);
    }
    if let Some(q) = f.q {
        if exists|i: int|
            0 <= i < r.labels.len() && text::occurs(
                text::lowercase(#[trigger] r.labels[i]),
                text::lowercase(q),
            ) {
            let i = choose|i: int|
                0 <= i < r.labels.len() && text::occurs(
                    text::lowercase(#[trigger] r.labels[i]),
                    text::lowercase(q),
                );
            assert(mentions(r.labels[i], q));
        }
    }
}

/// One more type, status or priority never drops an item from a list that had some; and
/// without any, all items are kept that the rest keeps.
pub proof fn law_one_more_alternative_drops_nothing(
    f: FiltersView,
    r: RowView,
    item_type: ItemType,
    status: ItemStatus,
    priority: u8,
)
    requires
        keeps(f, r),
    ensures
        f.item_type.len() > 0 ==> keeps(
            FiltersView { item_type: f.item_type.push(item_type), ..f },
            r,
        ),
        f.status.len() > 0 ==> keeps(FiltersView { status: f.status.push(status), ..f }, r),
        f.priority.len() > 0 ==> keeps(FiltersView { priority: f.priority.push(priority), ..f }, r),
        keeps(FiltersView { item_type: Seq::empty(), ..f }, r),
        keeps(FiltersView { status: Seq::empty(), ..f }, r),
        keeps(FiltersView { priority: Seq::empty(), ..f }, r),
        keeps(FiltersView { assignee: None, ..f }, r),
        keeps(FiltersView { label: Seq::empty(), ..f }, r),
        keeps(FiltersView { q: None, ..f }, r),
{
    broadcast use vstd::seq_lib::group_seq_properties;

}

/// The words of the statuses, the types and the priorities are read as what they name, and no
/// other word is but `started`, which is a status in progress.
pub proof fn law_words_are_read_as_what_they_name(
    s: ItemStatus,
    t: ItemType,
    raw: Seq<char>,
)
    ensures
        status_of(s.word()) == Ok::<ItemStatus, ErrorView>(s),
        type_of(t.word()) == Ok::<ItemType, ErrorView>(t),
        status_of(raw) matches Ok(x) ==> raw == x.word() || (raw == "started"@ && x
            == ItemStatus::InProgress),
        type_of(raw) matches Ok(x) ==> raw == x.word(),
        priority_of(raw) matches Ok(p) ==> p <= 4 && raw == text::decimal(p as nat),
        forall|p: u8| p <= 4 ==> priority_of(#[trigger] text::decimal(p as nat)) == Ok::<
            u8,
            ErrorView,
        >(p),
{
    reveal_strlit("open");
    reveal_strlit("in_progress");
    reveal_strlit("started");
    reveal_strlit("closed");
    reveal_strlit("bug");
    reveal_strlit("feature");
    reveal_strlit("chore");
    reveal_strlit("docs");
    reveal_strlit("epic");
    reveal_strlit("0");
    reveal_strlit("1");
    reveal_strlit("2");
    reveal_strlit("3");
    reveal_strlit("4");
    assert("docs"@[0] != "epic"@[0]);
    assert("open"@[0] != "closed"@[0]);
    assert(text::decimal(0) =~= "0"@);
    assert(text::decimal(1) =~= "1"@);
    assert(text::decimal(2) =~= "2"@);
    assert(text::decimal(3) =~= "3"@);
    assert(text::decimal(4) =~= "4"@);
    assert("0"@[0] == '0' && "1"@[0] == '1' && "2"@[0] == '2' && "3"@[0] == '3' && "4"@[0] == '4');
    assert forall|p: u8| p <= 4 implies priority_of(#[trigger] text::decimal(p as nat)) == Ok::<
        u8,
        ErrorView,
    >(p) by {
        assert(p == 0 || p == 1 || p == 2 || p == 3 || p == 4);
    }
}

/// A filter set is what its words say: as many statuses, types and priorities as words, each
/// the one that its word names, every label in lower case, the assignee and the text as given.
pub proof fn law_a_filter_set_is_what_its_words_say(
    status: Seq<Seq<char>>,
    item_type: Seq<Seq<char>>,
    label: Seq<Seq<char>>,
    assignee: Option<Seq<char>>,
    priority: Seq<Seq<char>>,
    q: Option<Seq<char>>,
)
    ensures
        filters_of(status, item_type, label, assignee, priority, q) matches Ok(f) ==> {
            &&& f.status.len() == status.len() && forall|i: int|
                0 <= i < status.len() ==> status_of(#[trigger] status[i]) == Ok::<
                    ItemStatus,
                    ErrorView,
                >(f.status[i])
            &&& f.item_type.len() == item_type.len() && forall|i: int|
                0 <= i < item_type.len() ==> type_of(#[trigger] item_type[i]) == Ok::<
                    ItemType,
                    ErrorView,
                >(f.item_type[i])
            &&& f.priority.len() == priority.len() && forall|i: int|
                0 <= i < priority.len() ==> priority_of(#[trigger] priority[i]) == Ok::<
                    u8,
                    ErrorView,
                >(f.priority[i])
            &&& f.label.len() == label.len() && forall|i: int|
                0 <= i < label.len() ==> f.label[i] == text::lowercase(#[trigger] label[i])
            &&& f.assignee == assignee
            &&& f.q == q
        },
        filters_of(status, item_type, label, assignee, priority, q) is Err ==> {
            ||| exists|i: int| 0 <= i < status.len() && status_of(#[trigger] status[i]) is Err
            ||| exists|i: int| 0 <= i < item_type.len() && type_of(#[trigger] item_type[i]) is Err
            ||| exists|i: int| 0 <= i < priority.len() && priority_of(#[trigger] priority[i]) is Err
        },
{
    lemma_statuses_mean(status);
    lemma_types_mean(item_type);
    lemma_priorities_mean(priority);
}

proof fn lemma_statuses_mean(raw: Seq<Seq<char>>)
    ensures
        match statuses_of(raw) {
            Ok(v) => v.len() == raw.len() && forall|i: int|
                0 <= i < raw.len() ==> status_of(#[trigger] raw[i]) == Ok::<ItemStatus, ErrorView>(v[i]),
            Err(_) => exists|i: int| 0 <= i < raw.len() && status_of(#[trigger] raw[i]) is Err,
        },
    decreases raw.len(),
{
    if raw.len() > 0 {
        let init = raw.drop_last();
        lemma_statuses_mean(init);
        match statuses_of(init) {
            Err(_) => {
                let i = choose|i: int| 0 <= i < init.len() && status_of(#[trigger] init[i]) is Err;
                assert(raw[i] == init[i]);
            },
            Ok(rest) => match status_of(raw.last()) {
                Ok(s) => {
                    let v = rest.push(s);
                    assert forall|i: int| 0 <= i < raw.len() implies status_of(#[trigger] raw[i])
                        == Ok::<ItemStatus, ErrorView>(v[i]) by {
                        if i < init.len() {
                            assert(raw[i] == init[i]);
                        }
                    }
                },
                Err(_) => {
                    assert(status_of(raw[raw.len() - 1]) is Err);
                },
            },
        }
    }
}

proof fn lemma_types_mean(raw: Seq<Seq<char>>)
    ensures
        match types_of(raw) {
            Ok(v) => v.len() == raw.len() && forall|i: int|
                0 <= i < raw.len() ==> type_of(#[trigger] raw[i]) == Ok::<ItemType, ErrorView>(v[i]),
            Err(_) => exists|i: int| 0 <= i < raw.len() && type_of(#[trigger] raw[i]) is Err,
        },
    decreases raw.len(),
{
    if raw.len() > 0 {
        let init = raw.drop_last();
        lemma_types_mean(init);
        match types_of(init) {
            Err(_) => {
                let i = choose|i: int| 0 <= i < init.len() && type_of(#[trigger] init[i]) is Err;
                assert(raw[i] == init[i]);
            },
            Ok(rest) => match type_of(raw.last()) {
                Ok(s) => {
                    let v = rest.push(s);
                    assert forall|i: int| 0 <= i < raw.len() implies type_of(#[trigger] raw[i])
                        == Ok::<ItemType, ErrorView>(v[i]) by {
                        if i < init.len() {
                            assert(raw[i] == init[i]);
                        }
                    }
                },
                Err(_) => {
                    assert(type_of(raw[raw.len() - 1]) is Err);
                },
            },
        }
    }
}

proof fn lemma_priorities_mean(raw: Seq<Seq<char>>)
    ensures
        match priorities_of(raw) {
            Ok(v) => v.len() == raw.len() && forall|i: int|
                0 <= i < raw.len() ==> priority_of(#[trigger] raw[i]) == Ok::<u8, ErrorView>(v[i]),
            Err(_) => exists|i: int| 0 <= i < raw.len() && priority_of(#[trigger] raw[i]) is Err,
        },
    decreases raw.len(),
{
    if raw.len() > 0 {
        let init = raw.drop_last();
        lemma_priorities_mean(init);
        match priorities_of(init) {
            Err(_) => {
                let i = choose|i: int| 0 <= i < init.len() && priority_of(#[trigger] init[i]) is Err;
                assert(raw[i] == init[i]);
            },
            Ok(rest) => match priority_of(raw.last()) {
                Ok(s) => {
                    let v = rest.push(s);
                    assert forall|i: int| 0 <= i < raw.len() implies priority_of(#[trigger] raw[i])
                        == Ok::<u8, ErrorView>(v[i]) by {
                        if i < init.len() {
                            assert(raw[i] == init[i]);
                        }
                    }
                },
                Err(_) => {
                    assert(priority_of(raw[raw.len() - 1]) is Err);
                },
            },
        }
    }
}

/// A page is the part of the list behind its offset, no longer than its limit: the entry at a
/// place of the page is the one so many places behind the offset, and the page ends only
/// where the list or the limit does.
pub proof fn law_a_page_is_a_part_of_the_list<T>(all: Seq<T>, page: Page)
    ensures
        ({
            let part = page_of(all, page);
            &&& forall|i: int| 0 <= i < part.len() ==> #[trigger] part[i] == all[page.offset + i]
            &&& page.limit matches Some(n) ==> part.len() <= n
            &&& page.offset + part.len() < all.len() ==> page.limit == Some(part.len() as usize)
            &&& page.offset >= all.len() ==> part.len() == 0
        }),
{
}

/// The limit that is given is in force, 0 means none, and without one the default is.
pub proof fn law_a_given_limit_is_in_force(n: usize, default: usize)
    ensures
        n > 0 ==> limit_in_force(Some(n), default) == Some(n),
        limit_in_force(Some(0), default) is None,
        default > 0 ==> limit_in_force(None, default) == Some(default),
        limit_in_force(None, 0) is None,
{
}

/// The limit that is reported is the one in force, and asking for it again gives the same.
pub proof fn law_the_reported_limit_is_the_one_in_force(n: usize, default: usize)
    ensures
        limit_reported(Some(n)) == n,
        limit_reported(None) == 0,
        limit_in_force(Some(limit_reported(limit_in_force(Some(n), default))), default)
            == limit_in_force(Some(n), default),
{
}

} // verus!
