//! Price tracking: which listing pages are read, the items found there, the
//! lowest price and the dates of each item's price history, and the notice
//! when a price drops below that lowest price.
use vstd::prelude::*;
use crate::html::{nodes_view, select_nodes, selected_nodes, ScrapedNode, ScrapedNodeView};
use crate::text::{
    chars_of, concat_all, decimal, find_char, first_index, has_char, is_ascii_digit, join_texts,
    parse_u32, parse_u32_spec, push_decimal, replace_all_char, replace_char, string_of,
};

verus! {

/// An item of a listing page.
#[derive(Clone)]
pub struct Item {
    /// The item's name.
    pub name: String,
    /// The listing the item was found in.
    pub type_id: u32,
    /// The item's code, as in its detail page's address.
    pub id: String,
    /// The address of the item's detail page.
    pub detail_url: String,
}

/// The lowest price of an item and the dates its price history covers.
#[derive(Clone)]
pub struct ItemHistory {
    pub item: Item,
    pub min_price: u32,
    pub date_range: String,
}

/// The listings whose items are tracked, in the order they are read.
pub open spec fn listing_ids() -> Seq<u32> {
    seq![481u32, 485, 480, 486, 479, 482, 484, 487]
}

/// The listings whose items are tracked.
pub fn listing_type_ids() -> (r: Vec<u32>)
    ensures
        r@ == listing_ids(),
{
    let r = vec![481u32, 485, 480, 486, 479, 482, 484, 487];
    assert(r@ =~= listing_ids());
    r
}

/// The address of a listing page: site, path, `?`, query key, `=`, listing.
pub fn listing_url(target_url: &str, sub_url: &str, query: &str, type_id: u32) -> (r: String)
    ensures
        r@ == target_url@ + sub_url@ + "?"@ + query@ + "="@ + decimal(type_id as nat),
{
    let mut out = target_url.to_string();
    out.append(sub_url);
    out.append("?");
    out.append(query);
    out.append("=");
    push_decimal(&mut out, type_id as u64);
    out
}

/// Whether a link holds an item code: a `K`, and a `/` somewhere after it.
pub open spec fn href_has_id(href: Seq<char>) -> bool {
    &&& href.contains('K')
    &&& href.skip(first_index(href, 'K')->0).contains('/')
}

/// The item code in a link: from its first `K` up to the first `/` after it.
pub open spec fn item_id(href: Seq<char>) -> Seq<char> {
    let rest = href.skip(first_index(href, 'K')->0);
    rest.take(first_index(rest, '/')->0)
}

/// An item's name: the text of its link, with ideographic spaces made plain.
pub open spec fn item_name(texts: Seq<Seq<char>>) -> Seq<char> {
    replace_char(concat_all(texts), '\u{3000}', ' ')
}

/// Whether an item can be read from a link: it has an address holding a code.
pub open spec fn listing_node_readable(n: ScrapedNodeView) -> bool {
    n.attr matches Some(h) && href_has_id(h)
}

/// Whether an item read from link `n` of listing `type_id` of site
/// `target_url` is `it`.
pub open spec fn item_of_node(it: Item, n: ScrapedNodeView, type_id: u32, target_url: Seq<char>) -> bool {
    &&& it.name@ == item_name(n.texts)
    &&& it.type_id == type_id
    &&& it.id@ == item_id(n.attr->0)
    &&& it.detail_url@ == target_url + "/item/"@ + item_id(n.attr->0)
}

/// The item code in a link.
pub fn item_id_of(href: &str) -> (r: String)
    requires
        href_has_id(href@),
    ensures
        r@ == item_id(href@),
        r@.len() > 0 && r@[0] == 'K',
        !r@.contains('/'),
{
    let cs = chars_of(href);
    let k = match find_char(&cs, 'K') {
        Some(k) => k,
        None => {
            assert(false);
            0
        },
    };
    let rest = string_of(&cs, k, cs.len());
    assert(rest@ =~= href@.skip(k as int));
    let rc = chars_of(rest.as_str());
    let j = match find_char(&rc, '/') {
        Some(j) => j,
        None => {
            assert(false);
            0
        },
    };
    let id = string_of(&rc, 0, j);
    assert(id@ =~= rest@.take(j as int));
    assert(j > 0) by {
        if j == 0 {
            assert(rc@[0] == 'K');
        }
    }
    assert(id@[0] == 'K');
    assert(!id@.contains('/')) by {
        if id@.contains('/') {
            let m = choose|m: int| 0 <= m < id@.len() && id@[m] == '/';
            assert(rc@[m] == '/');
        }
    }
    id
}

/// The item that a link of a listing page describes.
pub fn item_from_node(node: &ScrapedNode, type_id: u32, target_url: &str) -> (r: Item)
    requires
        listing_node_readable(node@),
    ensures
        item_of_node(r, node@, type_id, target_url@),
{
    let joined = join_texts(&node.texts);
    let name = replace_all_char(joined.as_str(), '\u{3000}', ' ');
    let href = match &node.attr {
        Some(h) => h,
        None => {
            assert(false);
            return Item { name, type_id, id: String::new(), detail_url: String::new() };
        },
    };
    let id = item_id_of(href.as_str());
    let mut detail_url = target_url.to_string();
    detail_url.append("/item/");
    detail_url.append(id.as_str());
    Item { name, type_id, id, detail_url }
}

/// How many items of a listing page are tracked: the first five links.
pub open spec fn tracked_count(links: nat) -> nat {
    if links < 5 {
        links
    } else {
        5
    }
}

pub open spec fn listing_readable(nodes: Seq<ScrapedNodeView>) -> bool {
    forall|i: int| 0 <= i < tracked_count(nodes.len()) ==> listing_node_readable(#[trigger] nodes[i])
}

/// The items of a listing page, one for each of its first five links.
pub fn items_from_listing(nodes: &Vec<ScrapedNode>, type_id: u32, target_url: &str) -> (r: Vec<Item>)
    requires
        listing_readable(nodes_view(nodes@)),
    ensures
        r.len() == tracked_count(nodes.len() as nat),
        forall|i: int| 0 <= i < r.len() ==> item_of_node(#[trigger] r[i], nodes@[i]@, type_id, target_url@),
{
    let mut out: Vec<Item> = Vec::new();
    let mut i: usize = 0;
    while i < nodes.len() && i < 5
        invariant
            i <= nodes.len(),
            i <= 5,
            listing_readable(nodes_view(nodes@)),
            out.len() == i,
            forall|j: int| 0 <= j < i ==> item_of_node(#[trigger] out[j], nodes@[j]@, type_id, target_url@),
        decreases nodes.len() - i,
    {
        assert(nodes_view(nodes@)[i as int] == nodes@[i as int]@);
        out.push(item_from_node(&nodes[i], type_id, target_url));
        i = i + 1;
    }
    out
}

/// The CSS selector of the item links on a listing page.
pub open spec fn listing_selector() -> Seq<char> {
    "table.tbl-compare02 tbody tr.tr-border td[class=\"end checkItem\"] table tbody tr td.ckitemLink a.ckitanker"@
}

/// The tracked items of a listing page, or `None` where the page cannot be
/// read: one of its first five links has no address with an item code.
pub fn listing_items(html: &str, type_id: u32, target_url: &str) -> (r: Option<Vec<Item>>)
    ensures
        match selected_nodes(html@, listing_selector(), "href"@) {
            Some(ns) => if listing_readable(ns) {
                r matches Some(v) && v.len() == tracked_count(ns.len()) && forall|i: int|
                    0 <= i < v.len() ==> item_of_node(#[trigger] v[i], ns[i], type_id, target_url@)
            } else {
                r is None
            },
            None => r is None,
        },
{
    let nodes = match select_nodes(
        html,
        "table.tbl-compare02 tbody tr.tr-border td[class=\"end checkItem\"] table tbody tr td.ckitemLink a.ckitanker",
        "href",
    ) {
        Some(ns) => ns,
        None => return None,
    };
    let ghost ns = nodes_view(nodes@);
    let mut i: usize = 0;
    while i < nodes.len() && i < 5
        invariant
            i <= nodes.len(),
            i <= 5,
            ns == nodes_view(nodes@),
            selected_nodes(html@, listing_selector(), "href"@) == Some(ns),
            forall|j: int| 0 <= j < i ==> listing_node_readable(#[trigger] ns[j]),
        decreases nodes.len() - i,
    {
        if !node_has_item(&nodes[i]) {
            assert(!listing_node_readable(ns[i as int]));
            assert(!listing_readable(ns));
            return None;
        }
        i = i + 1;
    }
    assert(listing_readable(ns));
    Some(items_from_listing(&nodes, type_id, target_url))
}

fn node_has_item(n: &ScrapedNode) -> (r: bool)
    ensures
        r == listing_node_readable(n@),
{
    match &n.attr {
        None => false,
        Some(h) => {
            let cs = chars_of(h.as_str());
            match find_char(&cs, 'K') {
                None => false,
                Some(k) => {
                    let rest = string_of(&cs, k, cs.len());
                    assert(rest@ =~= h@.skip(k as int));
                    has_char(rest.as_str(), '/')
                },
            }
        },
    }
}

/// The address of an item's price history: its detail page and a suffix.
pub fn history_url(item: &Item, suffix: &str) -> (r: String)
    ensures
        r@ == item.detail_url@ + suffix@,
{
    let mut out = item.detail_url.clone();
    out.append(suffix);
    out
}

/// The characters of `s` that are ASCII digits, in order.
pub open spec fn ascii_digits(s: Seq<char>) -> Seq<char>
    decreases s.len(),
{
    if s.len() == 0 {
        Seq::empty()
    } else {
        ascii_digits(s.drop_last()) + if is_ascii_digit(s.last()) {
            seq![s.last()]
        } else {
            Seq::empty()
        }
    }
}

/// What remains of `s` once the regular expression `\D` of the `regex`
/// crate has replaced every non-digit by nothing.
pub uninterp spec fn non_digits_removed(s: Seq<char>) -> Seq<char>;

/// Calls `regex::Regex::new(r"\D")` and `Regex::replace_all` with an empty
/// replacement. `\D` is every character outside the Unicode class `Nd`; of
/// the ASCII characters, those are all but `0` to `9`. The contract claims
/// the result for ASCII text and, for other text, only that it is a function
/// of `s`.
#[verifier::external_body]
fn remove_non_digits(s: &str) -> (r: String)
    ensures
        r@ == non_digits_removed(s@),
        (forall|i: int| 0 <= i < s@.len() ==> (#[trigger] s@[i] as u32) < 128) ==> r@ == ascii_digits(s@),
{
    regex::Regex::new(r"\D").unwrap().replace_all(s, "").into_owned()
}

/// The price a text shows: its digits, read as a number, if they are one.
pub open spec fn price_of_text(t: Seq<char>) -> Option<u32> {
    parse_u32_spec(non_digits_removed(t))
}

/// The price in a piece of text, if its digits make one.
pub fn price_in(t: &str) -> (r: Option<u32>)
    ensures
        r == price_of_text(t@),
{
    let digits = remove_non_digits(t);
    parse_u32(digits.as_str())
}

pub open spec fn nodes_have_text(nodes: Seq<ScrapedNodeView>) -> bool {
    forall|i: int| 0 <= i < nodes.len() ==> (#[trigger] nodes[i]).texts.len() > 0
}

/// The prices of a history table: for each cell, the price in its first text
/// piece, where there is one.
pub open spec fn prices(nodes: Seq<ScrapedNodeView>) -> Seq<u32>
    decreases nodes.len(),
{
    if nodes.len() == 0 {
        Seq::empty()
    } else {
        prices(nodes.drop_last()) + match price_of_text(nodes.last().texts[0]) {
            Some(p) => seq![p],
            None => Seq::empty(),
        }
    }
}

/// The prices in the cells of a history table.
pub fn price_values(nodes: &Vec<ScrapedNode>) -> (r: Vec<u32>)
    requires
        nodes_have_text(nodes_view(nodes@)),
    ensures
        r@ == prices(nodes_view(nodes@)),
{
    let ghost ns = nodes_view(nodes@);
    let mut out: Vec<u32> = Vec::new();
    let mut i: usize = 0;
    while i < nodes.len()
        invariant
            i <= nodes.len(),
            ns == nodes_view(nodes@),
            nodes_have_text(ns),
            out@ == prices(ns.take(i as int)),
        decreases nodes.len() - i,
    {
        assert(ns.take(i + 1).drop_last() =~= ns.take(i as int));
        assert(ns[i as int] == nodes@[i as int]@);
        assert(ns[i as int].texts.len() > 0);
        let first = &nodes[i].texts[0];
        match price_in(first.as_str()) {
            Some(p) => out.push(p),
            None => {},
        }
        i = i + 1;
        assert(out@ =~= prices(ns.take(i as int)));
    }
    assert(ns.take(i as int) =~= ns);
    out
}

/// The text pieces that name a day: those holding `日`.
pub open spec fn day_texts(ts: Seq<Seq<char>>) -> Seq<Seq<char>>
    decreases ts.len(),
{
    if ts.len() == 0 {
        Seq::empty()
    } else {
        day_texts(ts.drop_last()) + if ts.last().contains('日') {
            seq![ts.last()]
        } else {
            Seq::empty()
        }
    }
}

/// The day texts of all cells, in order.
pub open spec fn dates(nodes: Seq<ScrapedNodeView>) -> Seq<Seq<char>>
    decreases nodes.len(),
{
    if nodes.len() == 0 {
        Seq::empty()
    } else {
        dates(nodes.drop_last()) + day_texts(nodes.last().texts)
    }
}

fn day_texts_of(ts: &Vec<String>, out: &mut Vec<String>)
    ensures
        final(out).deep_view() == old(out).deep_view() + day_texts(ts.deep_view()),
{
    let ghost start = out.deep_view();
    let ghost tv = ts.deep_view();
    let mut i: usize = 0;
    while i < ts.len()
        invariant
            i <= ts.len(),
            tv == ts.deep_view(),
            out.deep_view() == start + day_texts(tv.take(i as int)),
        decreases ts.len() - i,
    {
        assert(tv.take(i + 1).drop_last() =~= tv.take(i as int));
        let ghost prev = out.deep_view();
        if has_char(ts[i].as_str(), '日') {
            let t = ts[i].clone();
            out.push(t);
            assert(out.deep_view() =~= prev.push(tv[i as int]));
        }
        i = i + 1;
        assert(out.deep_view() =~= start + day_texts(tv.take(i as int)));
    }
    assert(tv.take(i as int) =~= tv);
}

/// The texts naming days in the cells of a history table.
pub fn date_texts(nodes: &Vec<ScrapedNode>) -> (r: Vec<String>)
    ensures
        r.deep_view() == dates(nodes_view(nodes@)),
{
    let ghost ns = nodes_view(nodes@);
    let mut out: Vec<String> = Vec::new();
    let mut i: usize = 0;
    assert(out.deep_view() =~= dates(ns.take(0)));
    while i < nodes.len()
        invariant
            i <= nodes.len(),
            ns == nodes_view(nodes@),
            out.deep_view() == dates(ns.take(i as int)),
        decreases nodes.len() - i,
    {
        assert(ns.take(i + 1).drop_last() =~= ns.take(i as int));
        assert(ns[i as int] == nodes@[i as int]@);
        day_texts_of(&nodes[i].texts, &mut out);
        i = i + 1;
    }
    assert(ns.take(i as int) =~= ns);
    out
}

/// The smallest of a non-empty run of prices.
pub open spec fn seq_min(s: Seq<u32>) -> u32
    decreases s.len(),
{
    if s.len() <= 1 {
        s[0]
    } else {
        let m = seq_min(s.drop_last());
        if s.last() < m {
            s.last()
        } else {
            m
        }
    }
}

/// The smallest price is one of the prices, and no price is smaller.
pub proof fn lemma_seq_min(s: Seq<u32>)
    requires
        s.len() > 0,
    ensures
        s.contains(seq_min(s)),
        forall|i: int| 0 <= i < s.len() ==> seq_min(s) <= #[trigger] s[i],
    decreases s.len(),
{
    if s.len() > 1 {
        lemma_seq_min(s.drop_last());
        assert forall|i: int| 0 <= i < s.len() implies seq_min(s) <= #[trigger] s[i] by {
            if i < s.len() - 1 {
                assert(s.drop_last()[i] == s[i]);
            }
        }
        if seq_min(s) != s.last() {
            let k = choose|k: int| 0 <= k < s.len() - 1 && s.drop_last()[k] == seq_min(s.drop_last());
            assert(s[k] == seq_min(s));
        } else {
            assert(s[s.len() - 1] == seq_min(s));
        }
    } else {
        assert(s[0] == seq_min(s));
    }
}

/// The smallest price of a non-empty list.
pub fn min_price(values: &Vec<u32>) -> (r: u32)
    requires
        values.len() > 0,
    ensures
        r == seq_min(values@),
{
    let mut m = values[0];
    let mut i: usize = 1;
    while i < values.len()
        invariant
            1 <= i <= values.len(),
            m == seq_min(values@.take(i as int)),
        decreases values.len() - i,
    {
        assert(values@.take(i + 1).drop_last() =~= values@.take(i as int));
        if values[i] < m {
            m = values[i];
        }
        i = i + 1;
    }
    assert(values@.take(i as int) =~= values@);
    m
}

/// The dates a history covers: the last date, ` ~ `, the first.
pub open spec fn date_range_of(dates: Seq<Seq<char>>) -> Seq<char> {
    dates.last() + " ~ "@ + dates[0]
}

/// The history of an item, from its prices and dates.
pub fn item_history(item: Item, values: &Vec<u32>, dates: &Vec<String>) -> (r: ItemHistory)
    requires
        values.len() > 0,
        dates.len() > 0,
    ensures
        r.item == item,
        r.min_price == seq_min(values@),
        r.date_range@ == date_range_of(dates.deep_view()),
{
    let mut range = dates[dates.len() - 1].clone();
    range.append(" ~ ");
    range.append(dates[0].as_str());
    ItemHistory { item, min_price: min_price(values), date_range: range }
}

pub open spec fn value_selector() -> Seq<char> {
    "table[id=\"priceHistoryTbl2\"] tbody tr td[class=\"alignR itemviewColor06\"] strong"@
}

pub open spec fn date_selector() -> Seq<char> {
    "table[id=\"priceHistoryTbl2\"] tbody tr td.alignL"@
}

/// Whether a history page can be read: every price cell has text, some
/// cell holds a price, and some text names a day.
pub open spec fn history_readable(values: Seq<ScrapedNodeView>, days: Seq<ScrapedNodeView>) -> bool {
    nodes_have_text(values) && prices(values).len() > 0 && dates(days).len() > 0
}

/// The history of an item from its history page, or `None` where the page
/// cannot be read.
pub fn history_from_page(item: Item, html: &str) -> (r: Option<ItemHistory>)
    ensures
        match (selected_nodes(html@, value_selector(), "class"@), selected_nodes(html@, date_selector(), "class"@)) {
            (Some(vs), Some(ds)) => if history_readable(vs, ds) {
                r matches Some(h) && h.item == item && h.min_price == seq_min(prices(vs)) && h.date_range@
                    == date_range_of(dates(ds))
            } else {
                r is None
            },
            _ => r is None,
        },
{
    let value_nodes = match select_nodes(
        html,
        "table[id=\"priceHistoryTbl2\"] tbody tr td[class=\"alignR itemviewColor06\"] strong",
        "class",
    ) {
        Some(ns) => ns,
        None => return None,
    };
    let date_nodes = match select_nodes(html, "table[id=\"priceHistoryTbl2\"] tbody tr td.alignL", "class") {
        Some(ns) => ns,
        None => return None,
    };
    if !all_have_text(&value_nodes) {
        return None;
    }
    let values = price_values(&value_nodes);
    let days = date_texts(&date_nodes);
    if values.len() == 0 || days.len() == 0 {
        return None;
    }
    Some(item_history(item, &values, &days))
}

fn all_have_text(nodes: &Vec<ScrapedNode>) -> (r: bool)
    ensures
        r == nodes_have_text(nodes_view(nodes@)),
{
    let ghost ns = nodes_view(nodes@);
    let mut i: usize = 0;
    while i < nodes.len()
        invariant
            i <= nodes.len(),
            ns == nodes_view(nodes@),
            forall|j: int| 0 <= j < i ==> (#[trigger] ns[j]).texts.len() > 0,
        decreases nodes.len() - i,
    {
        assert(ns[i as int] == nodes@[i as int]@);
        if nodes[i].texts.len() == 0 {
            assert(ns[i as int].texts.len() == 0);
            return false;
        }
        i = i + 1;
    }
    true
}

/// What is printed once an item's history is first recorded.
pub open spec fn first_report_text(h: ItemHistory) -> Seq<char> {
    "Item Name: "@ + h.item.name@ + "\nDate Range: "@ + h.date_range@ + "\nMin Price: "@ + decimal(
        h.min_price as nat,
    ) + " yen\n\n"@
}

/// The report of an item's history: its name, its dates, its lowest price.
pub fn first_scrape_report(h: &ItemHistory) -> (r: String)
    ensures
        r@ == first_report_text(*h),
{
    let mut out = "Item Name: ".to_string();
    out.append(h.item.name.as_str());
    out.append("\nDate Range: ");
    out.append(h.date_range.as_str());
    out.append("\nMin Price: ");
    push_decimal(&mut out, h.min_price as u64);
    out.append(" yen\n\n");
    out
}

pub open spec fn price_selector() -> Seq<char> {
    "div#all div#main div.contents930 div.outerRecommend div#itmBoxMax div.itmBoxBottom div.itmBoxln div#productAll\n        div#ProductInfoBox div.priceBoxWrap div.priceWrap div.subInfoObj1 p span.priceTxt"@
}

/// The current price a detail page shows: in the first text piece of the
/// first price element, if there is such an element and its digits make a
/// price.
pub open spec fn current_price_of(nodes: Seq<ScrapedNodeView>) -> Option<u32> {
    if nodes.len() == 0 {
        None
    } else {
        price_of_text(nodes[0].texts[0])
    }
}

pub open spec fn price_page_readable(nodes: Seq<ScrapedNodeView>) -> bool {
    nodes.len() > 0 ==> nodes[0].texts.len() > 0
}

/// The current price among the price elements of a detail page.
pub fn current_price(nodes: &Vec<ScrapedNode>) -> (r: Option<u32>)
    requires
        price_page_readable(nodes_view(nodes@)),
    ensures
        r == current_price_of(nodes_view(nodes@)),
{
    if nodes.len() == 0 {
        return None;
    }
    assert(nodes_view(nodes@)[0] == nodes@[0]@);
    price_in(nodes[0].texts[0].as_str())
}

/// What reading a detail page for its current price gives.
pub enum PriceReading {
    /// The price shown.
    Price(u32),
    /// The page shows no price that can be read; the item is passed over.
    NoPrice,
    /// The first price element has no text at all.
    Unreadable,
}

/// Reads the current price from a detail page.
pub fn read_current_price(html: &str) -> (r: PriceReading)
    ensures
        match selected_nodes(html@, price_selector(), "class"@) {
            Some(ns) => if price_page_readable(ns) {
                match current_price_of(ns) {
                    Some(p) => r == PriceReading::Price(p),
                    None => r == PriceReading::NoPrice,
                }
            } else {
                r == PriceReading::Unreadable
            },
            None => r == PriceReading::Unreadable,
        },
{
    let nodes = match select_nodes(
        html,
        "div#all div#main div.contents930 div.outerRecommend div#itmBoxMax div.itmBoxBottom div.itmBoxln div#productAll\n        div#ProductInfoBox div.priceBoxWrap div.priceWrap div.subInfoObj1 p span.priceTxt",
        "class",
    ) {
        Some(ns) => ns,
        None => return PriceReading::Unreadable,
    };
    if nodes.len() > 0 && nodes[0].texts.len() == 0 {
        assert(nodes_view(nodes@)[0] == nodes@[0]@);
        return PriceReading::Unreadable;
    }
    if nodes.len() > 0 {
        assert(nodes_view(nodes@)[0] == nodes@[0]@);
    }
    match current_price(&nodes) {
        Some(p) => PriceReading::Price(p),
        None => PriceReading::NoPrice,
    }
}

/// The notice of a new lowest price.
pub open spec fn update_notice_text(h: ItemHistory, price: u32) -> Seq<char> {
    h.item.name@ + " の最小価格が "@ + decimal(h.min_price as nat) + " yen から "@ + decimal(price as nat)
        + " yen に更新されました！\n"@
}

/// The notice to post when an item's current price is below its recorded
/// lowest price; none otherwise.
pub fn price_update_notice(h: &ItemHistory, price: u32) -> (r: Option<String>)
    ensures
        r is Some <==> price < h.min_price,
        r matches Some(t) ==> t@ == update_notice_text(*h, price),
{
    if price < h.min_price {
        let mut out = h.item.name.clone();
        out.append(" の最小価格が ");
        push_decimal(&mut out, h.min_price as u64);
        out.append(" yen から ");
        push_decimal(&mut out, price as u64);
        out.append(" yen に更新されました！\n");
        Some(out)
    } else {
        None
    }
}

/// Which price scrape runs next.
pub enum ScrapeKind {
    /// Nothing is recorded yet: read the listings and record every item.
    First,
    /// Items are recorded: look for new lowest prices.
    Update,
}

/// The recorded item histories.
pub struct ItemHistoryContainer {
    pub histories: Vec<ItemHistory>,
}

impl ItemHistoryContainer {
    /// A container with nothing recorded.
    pub fn new() -> (r: Self)
        ensures
            r.histories@ == Seq::<ItemHistory>::empty(),
    {
        ItemHistoryContainer { histories: Vec::new() }
    }

    /// Records one more history.
    pub fn push(&mut self, h: ItemHistory)
        ensures
            final(self).histories@ == old(self).histories@.push(h),
    {
        self.histories.push(h);
    }
}

/// Which price scrape the hourly job runs: the first one while nothing is
/// recorded, an update after that.
pub fn scraping_price(container: &ItemHistoryContainer) -> (r: ScrapeKind)
    ensures
        r == (if container.histories.len() == 0 {
            ScrapeKind::First
        } else {
            ScrapeKind::Update
        }),
{
    if container.histories.len() == 0 {
        ScrapeKind::First
    } else {
        ScrapeKind::Update
    }
}

/// The date range of a history is its last date text, ` ~ `, and its first
/// date text, whatever the list holds in between: two lists with the same
/// first and last texts give the same range.
pub proof fn lemma_date_range_ends(dates: Seq<Seq<char>>, other: Seq<Seq<char>>)
    requires
        dates.len() > 0,
    ensures
        date_range_of(dates) == dates[dates.len() - 1] + " ~ "@ + dates[0],
        other.len() > 0 && other[0] == dates[0] && other[other.len() - 1] == dates[dates.len() - 1]
            ==> date_range_of(other) == date_range_of(dates),
        dates.len() == 1 ==> date_range_of(dates) == dates[0] + " ~ "@ + dates[0],
{
}

} // verus!
