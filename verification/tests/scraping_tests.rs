use discord_bot::html::ScrapedNode;
use discord_bot::scraping::{
    date_texts, first_scrape_report, history_from_page, history_url, item_from_node,
    item_history, item_id_of, items_from_listing, listing_items, listing_type_ids, listing_url,
    min_price, price_in, price_update_notice, price_values, read_current_price, scraping_price,
    Item, ItemHistory, ItemHistoryContainer, PriceReading, ScrapeKind,
};

fn node(texts: &[&str], attr: Option<&str>) -> ScrapedNode {
    ScrapedNode { texts: texts.iter().map(|t| t.to_string()).collect(), attr: attr.map(|a| a.to_string()) }
}

fn item() -> Item {
    Item {
        name: "Widget".to_string(),
        type_id: 481,
        id: "K0001".to_string(),
        detail_url: "https://shop.example/item/K0001".to_string(),
    }
}

#[test]
fn listing_addresses() {
    assert_eq!(listing_type_ids(), vec![481, 485, 480, 486, 479, 482, 484, 487]);
    assert_eq!(listing_url("https://shop.example", "/list", "spec", 481), "https://shop.example/list?spec=481");
}

#[test]
fn item_codes() {
    assert_eq!(item_id_of("https://shop.example/item/K0001234567/"), "K0001234567");
    assert_eq!(item_id_of("K1/K2/"), "K1");
}

#[test]
fn items_of_a_listing() {
    let n = node(&["Great", "\u{3000}", "SSD"], Some("/item/K0000001/"));
    let it = item_from_node(&n, 485, "https://shop.example");
    assert_eq!(it.name, "Great SSD");
    assert_eq!(it.type_id, 485);
    assert_eq!(it.id, "K0000001");
    assert_eq!(it.detail_url, "https://shop.example/item/K0000001");
    let nodes: Vec<ScrapedNode> = (0..7).map(|i| node(&["x"], Some(&format!("/item/K{}/", i)))).collect();
    let items = items_from_listing(&nodes, 480, "s");
    assert_eq!(items.len(), 5);
    assert_eq!(items[4].id, "K4");
}

#[test]
fn listing_page() {
    let html = r#"<table class="tbl-compare02"><tbody><tr class="tr-border"><td class="end checkItem">
      <table><tbody><tr><td class="ckitemLink"><a class="ckitanker" href="/item/K0000042/">Fast&#x3000;Disk</a></td></tr></tbody></table>
      </td></tr></tbody></table>"#;
    let items = listing_items(html, 481, "https://shop.example").expect("readable");
    assert_eq!(items.len(), 1);
    assert_eq!(items[0].name, "Fast Disk");
    assert_eq!(items[0].id, "K0000042");
    assert_eq!(items[0].detail_url, "https://shop.example/item/K0000042");
    let bad = html.replace("/item/K0000042/", "/item/none");
    assert!(listing_items(&bad, 481, "s").is_none());
}

#[test]
fn prices_and_dates() {
    assert_eq!(price_in("¥12,345"), Some(12345));
    assert_eq!(price_in("-"), None);
    let nodes = vec![node(&["¥1,200"], None), node(&["n/a"], None), node(&["¥980"], None)];
    assert_eq!(price_values(&nodes), vec![1200, 980]);
    let days = vec![node(&["2024年1月3日", "x"], None), node(&["時刻"], None), node(&["2024年1月1日"], None)];
    assert_eq!(date_texts(&days), vec!["2024年1月3日".to_string(), "2024年1月1日".to_string()]);
    assert_eq!(min_price(&vec![5, 3, 9]), 3);
}

#[test]
fn history_and_report() {
    let h = item_history(item(), &vec![1200, 980, 1500], &vec!["1月3日".to_string(), "1月1日".to_string()]);
    assert_eq!(h.min_price, 980);
    assert_eq!(h.date_range, "1月1日 ~ 1月3日");
    assert_eq!(
        first_scrape_report(&h),
        "Item Name: Widget\nDate Range: 1月1日 ~ 1月3日\nMin Price: 980 yen\n\n"
    );
    assert_eq!(history_url(&h.item, "/pricehistory/"), "https://shop.example/item/K0001/pricehistory/");
}

#[test]
fn history_page() {
    let html = r#"<table id="priceHistoryTbl2"><tbody>
        <tr><td class="alignL">2024年1月3日</td><td class="alignR itemviewColor06"><strong>¥1,500</strong></td></tr>
        <tr><td class="alignL">2024年1月1日</td><td class="alignR itemviewColor06"><strong>¥1,100</strong></td></tr>
        </tbody></table>"#;
    let h = history_from_page(item(), html).expect("readable");
    assert_eq!(h.min_price, 1100);
    assert_eq!(h.date_range, "2024年1月1日 ~ 2024年1月3日");
    assert!(history_from_page(item(), "<p>empty</p>").is_none());
}

#[test]
fn price_updates() {
    let h = ItemHistory { item: item(), min_price: 1000, date_range: String::new() };
    assert_eq!(
        price_update_notice(&h, 999),
        Some("Widget の最小価格が 1000 yen から 999 yen に更新されました！\n".to_string())
    );
    assert_eq!(price_update_notice(&h, 1000), None);
    assert_eq!(price_update_notice(&h, 2000), None);
}

#[test]
fn current_price_pages() {
    let sel = "<div id=\"all\"><div id=\"main\"><div class=\"contents930\"><div class=\"outerRecommend\"><div id=\"itmBoxMax\"><div class=\"itmBoxBottom\"><div class=\"itmBoxln\"><div id=\"productAll\"><div id=\"ProductInfoBox\"><div class=\"priceBoxWrap\"><div class=\"priceWrap\"><div class=\"subInfoObj1\"><p><span class=\"priceTxt\">PRICE</span></p></div></div></div></div></div></div></div></div></div></div></div></div>";
    assert!(matches!(read_current_price(&sel.replace("PRICE", "¥2,480")), PriceReading::Price(2480)));
    assert!(matches!(read_current_price(&sel.replace("PRICE", "sold out")), PriceReading::NoPrice));
    assert!(matches!(read_current_price("<p>none</p>"), PriceReading::NoPrice));
    assert!(matches!(read_current_price(&sel.replace("PRICE", "")), PriceReading::Unreadable));
}

#[test]
fn scrape_kind_follows_container() {
    let mut c = ItemHistoryContainer::new();
    assert!(matches!(scraping_price(&c), ScrapeKind::First));
    c.push(ItemHistory { item: item(), min_price: 1, date_range: String::new() });
    assert!(matches!(scraping_price(&c), ScrapeKind::Update));
}
