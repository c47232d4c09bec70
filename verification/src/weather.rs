//! The daily weather report: one line per three-hour slot with an emoji and
//! a warning for a high chance of rain, then the day's temperatures.
use vstd::prelude::*;
use crate::html::{nodes_view, select_nodes, selected_nodes, ScrapedNode, ScrapedNodeView};
use crate::text::{parse_u32, parse_u32_spec, same_text};

verus! {

/// The labels of the eight three-hour slots of the day.
pub open spec fn hour_labels() -> Seq<Seq<char>> {
    seq!["03"@, "06"@, "09"@, "12"@, "15"@, "18"@, "21"@, "24"@]
}

/// The emoji for a weather word in slot `i`; clear weather shows the moon in
/// the last two slots.
pub open spec fn weather_emoji(w: Seq<char>, i: int) -> Seq<char> {
    if w == "晴れ"@ {
        if i >= 6 {
            ":crescent_moon:"@
        } else {
            ":sunny:"@
        }
    } else if w == "曇り"@ {
        ":cloud:"@
    } else if w == "雨"@ {
        ":umbrella:"@
    } else if w == "小雨"@ {
        ":closed_umbrella:"@
    } else if w == "弱雨"@ {
        ":umbrella2:"@
    } else if w == "雪"@ {
        ":snowflake:"@
    } else {
        ":question:"@
    }
}

/// The warning shown for a chance of rain of at least 50 percent.
pub open spec fn rain_warning(p: u32) -> Seq<char> {
    if p >= 50 {
        "<-- 降水確率50%以上"@
    } else {
        Seq::empty()
    }
}

/// The report line of slot `i`: label, emoji, warning.
pub open spec fn weather_line(i: int, w: Seq<char>, p: u32) -> Seq<char> {
    hour_labels()[i] + ": "@ + weather_emoji(w, i) + " "@ + rain_warning(p) + "\n"@
}

pub open spec fn shorter_text() -> Seq<char> {
    "Error: rainy_p is shorter than weather elements.\n"@
}

/// The slot lines from slot `i` on. `rainy` holds the chances of rain,
/// `cells` the text pieces of each weather cell. A cell without text is
/// passed over; a cell past the end of the chances ends the report with an
/// error line; a chance that is not a number gives an error line instead.
pub open spec fn weather_body(rainy: Seq<Seq<char>>, cells: Seq<Seq<Seq<char>>>, i: int) -> Seq<char>
    decreases cells.len() - i,
{
    if i < 0 || i >= cells.len() {
        Seq::empty()
    } else if cells[i].len() < 1 {
        weather_body(rainy, cells, i + 1)
    } else if i > rainy.len() {
        shorter_text()
    } else {
        match parse_u32_spec(rainy[i]) {
            None => "Error: "@ + rainy[i] + " is not a number.\n"@ + weather_body(rainy, cells, i + 1),
            Some(p) => weather_line(i, cells[i][0], p) + weather_body(rainy, cells, i + 1),
        }
    }
}

/// Whether building the slot lines from slot `i` on reaches a cell that has
/// no chance of rain at its own position, or a ninth slot with a readable
/// chance: the report has no line for either.
pub open spec fn weather_fails(rainy: Seq<Seq<char>>, cells: Seq<Seq<Seq<char>>>, i: int) -> bool
    decreases cells.len() - i,
{
    if i < 0 || i >= cells.len() {
        false
    } else if cells[i].len() < 1 {
        weather_fails(rainy, cells, i + 1)
    } else if i > rainy.len() {
        false
    } else if i == rainy.len() {
        true
    } else {
        match parse_u32_spec(rainy[i]) {
            None => weather_fails(rainy, cells, i + 1),
            Some(_) => i >= 8 || weather_fails(rainy, cells, i + 1),
        }
    }
}

/// The whole report text.
pub open spec fn weather_text(
    rainy: Seq<Seq<char>>,
    cells: Seq<Seq<Seq<char>>>,
    max_temp: Option<Seq<char>>,
    min_temp: Option<Seq<char>>,
) -> Seq<char> {
    "\n"@ + weather_body(rainy, cells, 0) + "\n"@ + match max_temp {
        Some(t) => "最高気温: "@ + t + ", "@,
        None => Seq::empty(),
    } + match min_temp {
        Some(t) => "最低気温: "@ + t + "\n"@,
        None => Seq::empty(),
    }
}

fn hour_label(i: usize) -> (r: &'static str)
    requires
        i < 8,
    ensures
        r@ == hour_labels()[i as int],
{
    if i == 0 {
        "03"
    } else if i == 1 {
        "06"
    } else if i == 2 {
        "09"
    } else if i == 3 {
        "12"
    } else if i == 4 {
        "15"
    } else if i == 5 {
        "18"
    } else if i == 6 {
        "21"
    } else {
        "24"
    }
}

/// The emoji for a weather word in slot `i`.
pub fn emoji_for(w: &str, i: usize) -> (r: &'static str)
    ensures
        r@ == weather_emoji(w@, i as int),
{
    if same_text(w, "晴れ") {
        if i >= 6 {
            ":crescent_moon:"
        } else {
            ":sunny:"
        }
    } else if same_text(w, "曇り") {
        ":cloud:"
    } else if same_text(w, "雨") {
        ":umbrella:"
    } else if same_text(w, "小雨") {
        ":closed_umbrella:"
    } else if same_text(w, "弱雨") {
        ":umbrella2:"
    } else if same_text(w, "雪") {
        ":snowflake:"
    } else {
        ":question:"
    }
}

proof fn lemma_fails_step(rainy: Seq<Seq<char>>, cells: Seq<Seq<Seq<char>>>, i: int)
    requires
        0 <= i < cells.len(),
        !weather_fails(rainy, cells, i),
    ensures
        cells[i].len() < 1 ==> !weather_fails(rainy, cells, i + 1),
        cells[i].len() >= 1 && i <= rainy.len() ==> i < rainy.len() && !weather_fails(rainy, cells, i + 1)
            && (parse_u32_spec(rainy[i]) is Some ==> i < 8),
{
}

/// The report text from the chances of rain, the weather cells and the
/// day's temperatures.
pub fn weather_message(
    rainy: &Vec<String>,
    cells: &Vec<Vec<String>>,
    max_temp: Option<&str>,
    min_temp: Option<&str>,
) -> (r: String)
    requires
        !weather_fails(rainy.deep_view(), cells.deep_view(), 0),
    ensures
        r@ == weather_text(
            rainy.deep_view(),
            cells.deep_view(),
            match max_temp {
                Some(t) => Some(t@),
                None => None,
            },
            match min_temp {
                Some(t) => Some(t@),
                None => None,
            },
        ),
{
    let ghost rv = rainy.deep_view();
    let ghost cv = cells.deep_view();
    let mut out = "\n".to_string();
    let ghost total = "\n"@ + weather_body(rv, cv, 0);
    let mut i: usize = 0;
    while i < cells.len()
        invariant_except_break
            i <= cells.len(),
            out@ + weather_body(rv, cv, i as int) == total,
            !weather_fails(rv, cv, i as int),
        invariant
            rv == rainy.deep_view(),
            cv == cells.deep_view(),
        ensures
            out@ == total,
        decreases cells.len() - i,
    {
        proof {
            lemma_fails_step(rv, cv, i as int);
        }
        let ghost before = out@;
        if cells[i].len() < 1 {
            i = i + 1;
            continue;
        }
        if i > rainy.len() {
            out.append("Error: rainy_p is shorter than weather elements.\n");
            assert(out@ =~= total);
            break;
        }
        let r = &rainy[i];
        match parse_u32(r.as_str()) {
            None => {
                out.append("Error: ");
                out.append(r.as_str());
                out.append(" is not a number.\n");
                assert(out@ + weather_body(rv, cv, i + 1) =~= before + weather_body(rv, cv, i as int));
            },
            Some(p) => {
                out.append(hour_label(i));
                out.append(": ");
                out.append(emoji_for(cells[i][0].as_str(), i));
                out.append(" ");
                if p >= 50 {
                    out.append("<-- 降水確率50%以上");
                }
                out.append("\n");
                assert(out@ + weather_body(rv, cv, i + 1) =~= before + weather_body(rv, cv, i as int));
            },
        }
        i = i + 1;
    }
    if i >= cells.len() {
        assert(out@ =~= total);
    }
    out.append("\n");
    match max_temp {
        Some(t) => {
            out.append("最高気温: ");
            out.append(t);
            out.append(", ");
        },
        None => {},
    }
    match min_temp {
        Some(t) => {
            out.append("最低気温: ");
            out.append(t);
            out.append("\n");
        },
        None => {},
    }
    assert(out@ =~= weather_text(
        rv,
        cv,
        match max_temp {
            Some(t) => Some(t@),
            None => None,
        },
        match min_temp {
            Some(t) => Some(t@),
            None => None,
        },
    ));
    out
}

/// The first text piece of the first element that has one.
pub open spec fn first_text(nodes: Seq<ScrapedNodeView>) -> Option<Seq<char>>
    decreases nodes.len(),
{
    if nodes.len() == 0 {
        None
    } else if nodes[0].texts.len() > 0 {
        Some(nodes[0].texts[0])
    } else {
        first_text(nodes.drop_first())
    }
}

fn first_text_of(nodes: &Vec<ScrapedNode>) -> (r: Option<String>)
    ensures
        match r {
            Some(t) => first_text(nodes_view(nodes@)) == Some(t@),
            None => first_text(nodes_view(nodes@)) is None,
        },
{
    let ghost ns = nodes_view(nodes@);
    let mut i: usize = 0;
    assert(ns.skip(0) =~= ns);
    while i < nodes.len()
        invariant
            i <= nodes.len(),
            ns == nodes_view(nodes@),
            first_text(ns) == first_text(ns.skip(i as int)),
        decreases nodes.len() - i,
    {
        assert(ns.skip(i as int)[0] == nodes@[i as int]@);
        if nodes[i].texts.len() > 0 {
            return Some(nodes[i].texts[0].clone());
        }
        assert(ns.skip(i as int).drop_first() =~= ns.skip(i + 1));
        i = i + 1;
    }
    assert(ns.skip(i as int) =~= Seq::<ScrapedNodeView>::empty());
    None
}

/// The chances of rain: the first text piece of each element.
pub open spec fn first_texts(nodes: Seq<ScrapedNodeView>) -> Seq<Seq<char>> {
    nodes.map_values(|n: ScrapedNodeView| n.texts[0])
}

/// The text pieces of each weather cell.
pub open spec fn cell_texts(nodes: Seq<ScrapedNodeView>) -> Seq<Seq<Seq<char>>> {
    nodes.map_values(|n: ScrapedNodeView| n.texts)
}

pub open spec fn all_have_text(nodes: Seq<ScrapedNodeView>) -> bool {
    forall|i: int| 0 <= i < nodes.len() ==> (#[trigger] nodes[i]).texts.len() > 0
}

pub open spec fn rain_selector() -> Seq<char> {
    "table[id=\"forecast-point-3h-today\"] tbody tr.prob-precip td span"@
}

pub open spec fn weather_selector() -> Seq<char> {
    "table[id=\"forecast-point-3h-today\"] tbody tr.weather td p"@
}

pub open spec fn max_temp_selector() -> Seq<char> {
    "header[class=\"header clearfix\"] div#hd ul#history-entries li#history-entry-0 a[class=\"history-entries-link clearfix\"] div.info-box span.temp-box smap.max_t"@
}

pub open spec fn min_temp_selector() -> Seq<char> {
    "header[class=\"header clearfix\"] div#hd ul#history-entries li#history-entry-0 a[class=\"history-entries-link clearfix\"] div.info-box span.temp-box smap.min_t"@
}

/// Whether a forecast page gives a report: every chance of rain has text,
/// and the slot lines can be built.
pub open spec fn forecast_readable(rain: Seq<ScrapedNodeView>, cells: Seq<ScrapedNodeView>) -> bool {
    all_have_text(rain) && !weather_fails(first_texts(rain), cell_texts(cells), 0)
}

/// The report for a forecast page, or `None` where the page gives none.
pub fn scraping_weather(html: &str) -> (r: Option<String>)
    ensures
        match (
            selected_nodes(html@, rain_selector(), "class"@),
            selected_nodes(html@, weather_selector(), "class"@),
            selected_nodes(html@, max_temp_selector(), "class"@),
            selected_nodes(html@, min_temp_selector(), "class"@),
        ) {
            (Some(rn), Some(wn), Some(xn), Some(mn)) => if forecast_readable(rn, wn) {
                r matches Some(t) && t@ == weather_text(
                    first_texts(rn),
                    cell_texts(wn),
                    first_text(xn),
                    first_text(mn),
                )
            } else {
                r is None
            },
            _ => r is None,
        },
{
    let rain_nodes = match select_nodes(
        html,
        "table[id=\"forecast-point-3h-today\"] tbody tr.prob-precip td span",
        "class",
    ) {
        Some(ns) => ns,
        None => return None,
    };
    let weather_nodes = match select_nodes(
        html,
        "table[id=\"forecast-point-3h-today\"] tbody tr.weather td p",
        "class",
    ) {
        Some(ns) => ns,
        None => return None,
    };
    let max_nodes = match select_nodes(
        html,
        "header[class=\"header clearfix\"] div#hd ul#history-entries li#history-entry-0 a[class=\"history-entries-link clearfix\"] div.info-box span.temp-box smap.max_t",
        "class",
    ) {
        Some(ns) => ns,
        None => return None,
    };
    let min_nodes = match select_nodes(
        html,
        "header[class=\"header clearfix\"] div#hd ul#history-entries li#history-entry-0 a[class=\"history-entries-link clearfix\"] div.info-box span.temp-box smap.min_t",
        "class",
    ) {
        Some(ns) => ns,
        None => return None,
    };
    let ghost rn = nodes_view(rain_nodes@);
    let ghost wn = nodes_view(weather_nodes@);
    let mut rainy: Vec<String> = Vec::new();
    let mut i: usize = 0;
    while i < rain_nodes.len()
        invariant
            i <= rain_nodes.len(),
            rn == nodes_view(rain_nodes@),
            wn == nodes_view(weather_nodes@),
            selected_nodes(html@, rain_selector(), "class"@) == Some(rn),
            selected_nodes(html@, weather_selector(), "class"@) == Some(wn),
            selected_nodes(html@, max_temp_selector(), "class"@) == Some(nodes_view(max_nodes@)),
            selected_nodes(html@, min_temp_selector(), "class"@) == Some(nodes_view(min_nodes@)),
            rainy.len() == i,
            forall|j: int| 0 <= j < i ==> (#[trigger] rn[j]).texts.len() > 0,
            forall|j: int| 0 <= j < i ==> (#[trigger] rainy[j])@ == rn[j].texts[0],
        decreases rain_nodes.len() - i,
    {
        assert(rn[i as int] == rain_nodes@[i as int]@);
        if rain_nodes[i].texts.len() == 0 {
            assert(!all_have_text(rn));
            return None;
        }
        rainy.push(rain_nodes[i].texts[0].clone());
        i = i + 1;
    }
    assert(rainy.deep_view() =~= first_texts(rn));
    let mut cells: Vec<Vec<String>> = Vec::new();
    let mut k: usize = 0;
    while k < weather_nodes.len()
        invariant
            k <= weather_nodes.len(),
            wn == nodes_view(weather_nodes@),
            cells.len() == k,
            forall|j: int| 0 <= j < k ==> (#[trigger] cells[j]).deep_view() == wn[j].texts,
        decreases weather_nodes.len() - k,
    {
        assert(wn[k as int] == weather_nodes@[k as int]@);
        cells.push(weather_nodes[k].texts.clone());
        assert(cells[k as int].deep_view() =~= wn[k as int].texts);
        k = k + 1;
    }
    assert(cells.deep_view() =~= cell_texts(wn));
    if weather_fails_in(&rainy, &cells) {
        return None;
    }
    let max_t = first_text_of(&max_nodes);
    let min_t = first_text_of(&min_nodes);
    let msg = weather_message(
        &rainy,
        &cells,
        match &max_t {
            Some(t) => Some(t.as_str()),
            None => None,
        },
        match &min_t {
            Some(t) => Some(t.as_str()),
            None => None,
        },
    );
    Some(msg)
}

/// Whether building the slot lines would reach a slot without its line.
pub fn weather_fails_in(rainy: &Vec<String>, cells: &Vec<Vec<String>>) -> (r: bool)
    ensures
        r == weather_fails(rainy.deep_view(), cells.deep_view(), 0),
{
    let ghost rv = rainy.deep_view();
    let ghost cv = cells.deep_view();
    let mut i: usize = 0;
    while i < cells.len()
        invariant
            i <= cells.len(),
            rv == rainy.deep_view(),
            cv == cells.deep_view(),
            weather_fails(rv, cv, 0) == weather_fails(rv, cv, i as int),
        decreases cells.len() - i,
    {
        if cells[i].len() < 1 {
            i = i + 1;
            continue;
        }
        if i > rainy.len() {
            return false;
        }
        if i == rainy.len() {
            return true;
        }
        match parse_u32(rainy[i].as_str()) {
            None => {},
            Some(_) => {
                if i >= 8 {
                    return true;
                }
            },
        }
        i = i + 1;
    }
    false
}

/// The title of the weather report.
pub fn weather_title() -> (r: &'static str)
    ensures
        r@ == "今日の天気予報"@,
{
    "今日の天気予報"
}

/// Clear weather shows the moon in every night slot (`21` and `24`) and the
/// sun in every other slot of the day.
pub proof fn lemma_clear_sky_emoji(i: int)
    requires
        0 <= i < 8,
    ensures
        6 <= i ==> weather_emoji("晴れ"@, i) == ":crescent_moon:"@,
        i < 6 ==> weather_emoji("晴れ"@, i) == ":sunny:"@,
        hour_labels()[i] == "21"@ || hour_labels()[i] == "24"@ ==> weather_emoji("晴れ"@, i)
            == ":crescent_moon:"@,
{
    if hour_labels()[i] == "21"@ || hour_labels()[i] == "24"@ {
        if i < 6 {
            reveal_strlit("21");
            reveal_strlit("24");
            reveal_strlit("03");
            reveal_strlit("06");
            reveal_strlit("09");
            reveal_strlit("12");
            reveal_strlit("15");
            reveal_strlit("18");
            assert(hour_labels()[i][0] != '2' || hour_labels()[i][1] != '1');
            assert(hour_labels()[i][0] != '2' || hour_labels()[i][1] != '4');
        }
    }
}

} // verus!
