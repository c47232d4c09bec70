use discord_bot::weather::{emoji_for, scraping_weather, weather_fails_in, weather_message, weather_title};

fn strings(v: &[&str]) -> Vec<String> {
    v.iter().map(|s| s.to_string()).collect()
}

fn cells(v: &[&[&str]]) -> Vec<Vec<String>> {
    v.iter().map(|c| strings(c)).collect()
}

#[test]
fn emojis() {
    assert_eq!(emoji_for("晴れ", 0), ":sunny:");
    assert_eq!(emoji_for("晴れ", 6), ":crescent_moon:");
    assert_eq!(emoji_for("曇り", 3), ":cloud:");
    assert_eq!(emoji_for("雨", 3), ":umbrella:");
    assert_eq!(emoji_for("小雨", 3), ":closed_umbrella:");
    assert_eq!(emoji_for("弱雨", 3), ":umbrella2:");
    assert_eq!(emoji_for("雪", 3), ":snowflake:");
    assert_eq!(emoji_for("大雨", 3), ":question:");
    assert_eq!(weather_title(), "今日の天気予報");
}

#[test]
fn message_lines() {
    let rain = strings(&["10", "60", "x"]);
    let c = cells(&[&["晴れ"], &[], &["雨"]]);
    assert!(!weather_fails_in(&rain, &c));
    let m = weather_message(&rain, &c, Some("20℃"), Some("10℃"));
    assert_eq!(m, "\n03: :sunny: \nError: x is not a number.\n\n最高気温: 20℃, 最低気温: 10℃\n");
    let c2 = cells(&[&["曇り"], &["雨"]]);
    let m2 = weather_message(&rain, &c2, None, None);
    assert_eq!(m2, "\n03: :cloud: \n06: :umbrella: <-- 降水確率50%以上\n\n");
}

#[test]
fn short_rain_list() {
    let rain = strings(&["10"]);
    assert!(weather_fails_in(&rain, &cells(&[&["晴れ"], &["雨"]])));
    assert!(!weather_fails_in(&rain, &cells(&[&["晴れ"], &[], &["雨"]])));
    let m = weather_message(&rain, &cells(&[&["晴れ"], &[], &["雨"]]), None, None);
    assert_eq!(m, "\n03: :sunny: \nError: rainy_p is shorter than weather elements.\n\n");
}

#[test]
fn ninth_slot_fails() {
    let rain = strings(&["0", "0", "0", "0", "0", "0", "0", "0", "0"]);
    let c: Vec<Vec<String>> = (0..9).map(|_| strings(&["雪"])).collect();
    assert!(weather_fails_in(&rain, &c));
}

#[test]
fn forecast_page() {
    let html = r#"<html><body>
      <header class="header clearfix"><div id="hd"><ul id="history-entries"><li id="history-entry-0">
        <a class="history-entries-link clearfix"><div class="info-box"><span class="temp-box">
          <smap class="max_t">18</smap><smap class="min_t">9</smap></span></div></a></li></ul></div></header>
      <table id="forecast-point-3h-today"><tbody>
        <tr class="weather"><td><p>晴れ</p></td><td><p>曇り</p></td></tr>
        <tr class="prob-precip"><td><span>0</span></td><td><span>50</span></td></tr>
      </tbody></table></body></html>"#;
    let report = scraping_weather(html).expect("readable");
    assert!(report.starts_with("\n03: :sunny: \n06: :cloud: <-- 降水確率50%以上\n\n"));
    let bad = html.replace("<span>50</span>", "<span></span>");
    assert!(scraping_weather(&bad).is_none());
}
