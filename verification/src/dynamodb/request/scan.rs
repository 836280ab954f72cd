//! Scanning a table page by page.

use crate::dynamodb::item::{AttributeValue, Item, Value};
use crate::dynamodb::ordered_map::OrderedMap;
use crate::dynamodb::request::{limit_if_positive, opt_view, owned_text, positive_limit};
use vstd::prelude::*;

verus! {

/// What a scan request holds.
pub struct ScanView {
    pub table_name: Seq<char>,
    pub filter_expression: Option<Seq<char>>,
    pub projection_expression: Option<Seq<char>>,
    pub expression_attribute_names: Option<Seq<(Seq<char>, Seq<char>)>>,
    pub expression_attribute_values: Option<Seq<(Seq<char>, Value)>>,
    pub limit: Option<i32>,
    pub exclusive_start_key: Option<Seq<(Seq<char>, Value)>>,
}

/// A request for one page of a scan.
#[derive(Debug)]
pub struct ScanInput {
    pub table_name: String,
    pub filter_expression: Option<String>,
    pub projection_expression: Option<String>,
    pub expression_attribute_names: Option<OrderedMap<String>>,
    pub expression_attribute_values: Option<OrderedMap<AttributeValue>>,
    pub limit: Option<i32>,
    pub exclusive_start_key: Option<Item>,
}

impl View for ScanInput {
    type V = ScanView;

    open spec fn view(&self) -> ScanView {
        ScanView {
            table_name: self.table_name@,
            filter_expression: opt_view(self.filter_expression),
            projection_expression: opt_view(self.projection_expression),
            expression_attribute_names: opt_view(self.expression_attribute_names),
            expression_attribute_values: opt_view(self.expression_attribute_values),
            limit: self.limit,
            exclusive_start_key: opt_view(self.exclusive_start_key),
        }
    }
}

/// The request for one page of a scan: every parameter as given, but a limit
/// that is not positive stands for no limit. The page starts after
/// `exclusive_start_key`, the cursor of the page before, or at the beginning
/// of the table without one.
pub fn scan_paginated(
    table_name: &str,
    filter_expression: Option<&str>,
    projection_expression: Option<&str>,
    expression_attribute_names: Option<OrderedMap<String>>,
    expression_attribute_values: Option<OrderedMap<AttributeValue>>,
    limit: Option<i32>,
    exclusive_start_key: Option<Item>,
) -> (input: ScanInput)
    ensures
        input@ == (ScanView {
            table_name: table_name@,
            filter_expression: opt_view(filter_expression),
            projection_expression: opt_view(projection_expression),
            expression_attribute_names: opt_view(expression_attribute_names),
            expression_attribute_values: opt_view(expression_attribute_values),
            limit: positive_limit(limit),
            exclusive_start_key: opt_view(exclusive_start_key),
        }),
{
    ScanInput {
        table_name: table_name.to_owned(),
        filter_expression: owned_text(filter_expression),
        projection_expression: owned_text(projection_expression),
        expression_attribute_names,
        expression_attribute_values,
        limit: limit_if_positive(limit),
        exclusive_start_key,
    }
}

/// The values of a list of items.
pub open spec fn item_views(items: Seq<Item>) -> Seq<Seq<(Seq<char>, Value)>> {
    items.map_values(|item: Item| item@)
}

/// What a [`Page`] stands for.
pub struct PageView {
    pub items: Seq<Seq<(Seq<char>, Value)>>,
    pub cursor: Option<Seq<(Seq<char>, Value)>>,
}

/// One page of a result: its items, and the cursor to go on from. Without a
/// cursor the result is exhausted.
#[derive(Debug)]
pub struct Page {
    pub items: Vec<Item>,
    pub cursor: Option<Item>,
}

impl View for Page {
    type V = PageView;

    open spec fn view(&self) -> PageView {
        PageView { items: item_views(self.items@), cursor: opt_view(self.cursor) }
    }
}

/// The page that a response stands for: no items where the response holds
/// none, and no cursor where the last evaluated key is missing or empty.
pub open spec fn page_of(
    items: Option<Seq<Seq<(Seq<char>, Value)>>>,
    last_evaluated_key: Option<Seq<(Seq<char>, Value)>>,
) -> PageView {
    PageView {
        items: match items {
            Some(items) => items,
            None => Seq::empty(),
        },
        cursor: match last_evaluated_key {
            Some(key) if key.len() > 0 => Some(key),
            _ => None,
        },
    }
}

impl Page {
    /// The page that a response stands for.
    pub fn new(items: Option<Vec<Item>>, last_evaluated_key: Option<Item>) -> (page: Page)
        ensures
            page@ == page_of(
                match items {
                    Some(items) => Some(item_views(items@)),
                    None => None,
                },
                opt_view(last_evaluated_key),
            ),
    {
        let items = match items {
            Some(items) => items,
            None => {
                let none: Vec<Item> = Vec::new();
                assert(item_views(none@) =~= Seq::empty());
                none
            },
        };
        let cursor = match last_evaluated_key {
            Some(key) => if key.attributes().is_empty() {
                None
            } else {
                Some(key)
            },
            None => None,
        };
        Page { items, cursor }
    }
}

/// What a [`Pager`] stands for.
pub struct PagerView {
    /// The items of the pages received so far, in order.
    pub items: Seq<Seq<(Seq<char>, Value)>>,
    /// Where the next page starts: after this cursor, or at the beginning.
    pub start_key: Option<Seq<(Seq<char>, Value)>>,
    /// Whether the last page has been received.
    pub finished: bool,
}

impl PagerView {
    /// Before the first page.
    pub open spec fn initial() -> PagerView {
        PagerView { items: Seq::empty(), start_key: None, finished: false }
    }

    /// After one more page. Its items follow those collected so far, and
    /// its cursor is where the next page starts; without a cursor the run is
    /// over. A page that comes after the last one is not taken.
    pub open spec fn after_page(self, page: PageView) -> PagerView {
        if self.finished {
            self
        } else {
            PagerView {
                items: self.items + page.items,
                start_key: page.cursor,
                finished: page.cursor is None,
            }
        }
    }
}

/// Walks through the pages of a result: threads each page's cursor into the
/// request for the next page, and collects the items.
#[derive(Debug)]
pub struct Pager {
    items: Vec<Item>,
    start_key: Option<Item>,
    finished: bool,
}

impl View for Pager {
    type V = PagerView;

    closed spec fn view(&self) -> PagerView {
        PagerView {
            items: item_views(self.items@),
            start_key: opt_view(self.start_key),
            finished: self.finished,
        }
    }
}

impl Pager {
    /// A pager that has seen no page yet.
    pub fn new() -> (pager: Pager)
        ensures
            pager@ == PagerView::initial(),
    {
        let items: Vec<Item> = Vec::new();
        assert(item_views(items@) =~= Seq::empty());
        Pager { items, start_key: None, finished: false }
    }

    /// Whether the last page has been received.
    pub fn is_finished(&self) -> (finished: bool)
        ensures
            finished == self@.finished,
    {
        self.finished
    }

    /// The cursor after which the next page starts.
    pub fn start_key(&self) -> (key: Option<&Item>)
        ensures
            opt_view(key) == self@.start_key,
    {
        self.start_key.as_ref()
    }

    /// Takes in a page.
    pub fn on_page(&mut self, page: Page)
        ensures
            final(self)@ == old(self)@.after_page(page@),
    {
        if !self.finished {
            let Page { items, cursor } = page;
            let mut items = items;
            let ghost before = self.items@;
            let ghost added = items@;
            self.items.append(&mut items);
            assert(item_views(before + added) =~= item_views(before) + item_views(added));
            self.finished = cursor.is_none();
            self.start_key = cursor;
        }
    }

    /// The items collected so far.
    pub fn items(&self) -> (items: &Vec<Item>)
        ensures
            item_views(items@) == self@.items,
    {
        &self.items
    }

    /// Hands out the items collected so far and starts collecting anew. The
    /// position in the result is kept.
    pub fn take_items(&mut self) -> (items: Vec<Item>)
        ensures
            item_views(items@) == old(self)@.items,
            final(self)@ == (PagerView { items: Seq::empty(), ..old(self)@ }),
    {
        let mut items: Vec<Item> = Vec::new();
        assert(item_views(items@) =~= Seq::empty());
        std::mem::swap(&mut items, &mut self.items);
        items
    }

    /// Ends the walk and hands out the items collected.
    pub fn into_items(self) -> (items: Vec<Item>)
        ensures
            item_views(items@) == self@.items,
    {
        self.items
    }
}

fn cloned_names(names: &Option<OrderedMap<String>>) -> (copy: Option<OrderedMap<String>>)
    ensures
        opt_view(copy) == opt_view(*names),
{
    match names {
        Some(names) => Some(names.clone()),
        None => None,
    }
}

fn cloned_values(values: &Option<OrderedMap<AttributeValue>>) -> (copy: Option<
    OrderedMap<AttributeValue>,
>)
    ensures
        opt_view(copy) == opt_view(*values),
{
    match values {
        Some(values) => Some(values.clone()),
        None => None,
    }
}

/// The request for the next page of a scan of the whole table, or `None`
/// once `pager` has received the last page. Every page is asked for with the
/// same filter and placeholders, without projection or limit, and starts
/// after the cursor of the page before.
pub fn scan(
    table_name: &str,
    filter_expression: Option<&str>,
    expression_attribute_names: &Option<OrderedMap<String>>,
    expression_attribute_values: &Option<OrderedMap<AttributeValue>>,
    pager: &Pager,
) -> (request: Option<ScanInput>)
    ensures
        request is None <==> pager@.finished,
        request is Some ==> request->0@ == (ScanView {
            table_name: table_name@,
            filter_expression: opt_view(filter_expression),
            projection_expression: None,
            expression_attribute_names: opt_view(*expression_attribute_names),
            expression_attribute_values: opt_view(*expression_attribute_values),
            limit: None,
            exclusive_start_key: pager@.start_key,
        }),
{
    if pager.is_finished() {
        return None;
    }
    let start_key = match pager.start_key() {
        Some(key) => Some(key.clone()),
        None => None,
    };
    Some(
        scan_paginated(
            table_name,
            filter_expression,
            None,
            cloned_names(expression_attribute_names),
            cloned_values(expression_attribute_values),
            None,
            start_key,
        ),
    )
}

/// The request for the next page of a scan of the whole table without a
/// filter, or `None` once `pager` has received the last page.
pub fn scan_table(table_name: &str, pager: &Pager) -> (request: Option<ScanInput>)
    ensures
        request is None <==> pager@.finished,
        request is Some ==> request->0@ == (ScanView {
            table_name: table_name@,
            filter_expression: None,
            projection_expression: None,
            expression_attribute_names: None,
            expression_attribute_values: None,
            limit: None,
            exclusive_start_key: pager@.start_key,
        }),
{
    scan(table_name, None, &None, &None, pager)
}

/// The pager after it has taken in `pages`, one after the other.
pub open spec fn pager_after(pages: Seq<PageView>) -> PagerView
    decreases pages.len(),
{
    if pages.len() == 0 {
        PagerView::initial()
    } else {
        pager_after(pages.drop_last()).after_page(pages.last())
    }
}

/// The items of `pages`, one page after the other.
pub open spec fn all_items(pages: Seq<PageView>) -> Seq<Seq<(Seq<char>, Value)>>
    decreases pages.len(),
{
    if pages.len() == 0 {
        Seq::empty()
    } else {
        all_items(pages.drop_last()) + pages.last().items
    }
}

/// Whether `pages` can be the pages of one result: every page but the last
/// comes with a cursor.
pub open spec fn one_result(pages: Seq<PageView>) -> bool {
    forall|i: int| 0 <= i < pages.len() - 1 ==> (#[trigger] pages[i]).cursor is Some
}

/// Walking through the pages of one result loses and repeats nothing: the
/// items collected are those of the pages, in order, each page's items once.
/// The next page is asked for after exactly the cursor that the last page
/// came with, and the walk is over when a page comes without one.
pub proof fn lemma_pager_collects_pages(pages: Seq<PageView>)
    requires
        pages.len() > 0,
        one_result(pages),
    ensures
        pager_after(pages).items == all_items(pages),
        pager_after(pages).start_key == pages.last().cursor,
        pager_after(pages).finished == (pages.last().cursor is None),
    decreases pages.len(),
{
    let before = pages.drop_last();
    if before.len() > 0 {
        assert(one_result(before)) by {
            assert forall|i: int| 0 <= i < before.len() - 1 implies (
            #[trigger] before[i]).cursor is Some by {
                assert(before[i] == pages[i]);
            }
        }
        lemma_pager_collects_pages(before);
        assert(before.last() == pages[pages.len() - 2]);
        assert(!pager_after(before).finished);
    } else {
        assert(all_items(before) + pages.last().items =~= pages.last().items);
        assert(pager_after(before).items + pages.last().items =~= pages.last().items);
    }
}

} // verus!
