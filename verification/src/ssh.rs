//! The `ssh` command: which hosts its arguments name, what the status page
//! says of each host, and the texts the command answers with.
use vstd::prelude::*;
use crate::html::{nested_nodes, nested_view, select_nested, NestedNode, NestedNodeView};
use crate::text::{
    all_digits, chars_of, contains_seq, contains_str, debug_quoted, debug_string, decimal,
    find_char, first_index, has_char, is_ascii_digit, lemma_decimal_digits,
    lemma_parse_decimal_roundtrip, parse_u32, parse_u32_spec, push_decimal, string_of,
    unsigned_body,
};

verus! {

/// What one argument of the command names.
pub enum HostArg {
    /// A single host number.
    Single(u32),
    /// The hosts from the first to the second number, both included.
    Range(u32, u32),
    /// Neither: the command answers with its usage.
    Invalid,
}

/// How an argument is read: a number, or two numbers around one `:`, in
/// either order.
pub open spec fn host_arg(s: Seq<char>) -> HostArg {
    match parse_u32_spec(s) {
        Some(n) => HostArg::Single(n),
        None => match first_index(s, ':') {
            None => HostArg::Invalid,
            Some(i) => {
                let rest = s.skip(i + 1);
                if rest.contains(':') {
                    HostArg::Invalid
                } else {
                    match (parse_u32_spec(s.take(i)), parse_u32_spec(rest)) {
                        (Some(a), Some(b)) => if a > b {
                            HostArg::Range(b, a)
                        } else {
                            HostArg::Range(a, b)
                        },
                        _ => HostArg::Invalid,
                    }
                }
            },
        },
    }
}

/// The hosts an argument stands for, in increasing order.
pub open spec fn arg_hosts(a: HostArg) -> Seq<u32> {
    match a {
        HostArg::Single(n) => seq![n],
        HostArg::Range(lo, hi) => Seq::new((hi - lo + 1) as nat, |k: int| (lo + k) as u32),
        HostArg::Invalid => Seq::empty(),
    }
}

/// The hosts that all arguments name, in the order given; `None` as soon as
/// one argument is invalid.
pub open spec fn hosts_of(args: Seq<Seq<char>>) -> Option<Seq<u32>>
    decreases args.len(),
{
    if args.len() == 0 {
        Some(Seq::empty())
    } else {
        match hosts_of(args.drop_last()) {
            None => None,
            Some(prev) => match host_arg(args.last()) {
                HostArg::Invalid => None,
                a => Some(prev + arg_hosts(a)),
            },
        }
    }
}

/// Whether reading the arguments reaches a range that ends at `u32::MAX`,
/// whose upper bound the command cannot step past.
pub open spec fn hosts_overflow(args: Seq<Seq<char>>) -> bool
    decreases args.len(),
{
    if args.len() == 0 {
        false
    } else {
        hosts_overflow(args.drop_last()) || (hosts_of(args.drop_last()) is Some && match host_arg(
            args.last(),
        ) {
            HostArg::Range(_, hi) => hi == u32::MAX,
            _ => false,
        })
    }
}

/// Reads one argument.
pub fn classify_arg(s: &str) -> (r: HostArg)
    ensures
        r == host_arg(s@),
{
    if let Some(n) = parse_u32(s) {
        return HostArg::Single(n);
    }
    let cs = chars_of(s);
    match find_char(&cs, ':') {
        None => HostArg::Invalid,
        Some(i) => {
            let before = string_of(&cs, 0, i);
            let rest = string_of(&cs, i + 1, cs.len());
            assert(before@ =~= s@.take(i as int));
            assert(rest@ =~= s@.skip(i + 1));
            if has_char(rest.as_str(), ':') {
                return HostArg::Invalid;
            }
            match (parse_u32(before.as_str()), parse_u32(rest.as_str())) {
                (Some(a), Some(b)) => if a > b {
                    HostArg::Range(b, a)
                } else {
                    HostArg::Range(a, b)
                },
                _ => HostArg::Invalid,
            }
        },
    }
}

/// Whether the arguments reach a range that ends at `u32::MAX`.
pub fn hosts_overflow_in(args: &Vec<String>) -> (r: bool)
    ensures
        r == hosts_overflow(args.deep_view()),
{
    let mut i: usize = 0;
    let mut valid = true;
    while i < args.len()
        invariant
            i <= args.len(),
            valid == hosts_of(args.deep_view().take(i as int)) is Some,
            !hosts_overflow(args.deep_view().take(i as int)),
        decreases args.len() - i,
    {
        let ghost pre = args.deep_view().take(i as int);
        assert(args.deep_view().take(i + 1).drop_last() =~= pre);
        assert(args.deep_view().take(i + 1).last() == args[i as int]@);
        if valid {
            let a = classify_arg(args[i].as_str());
            match a {
                HostArg::Range(_, hi) => {
                    if hi == 4294967295u32 {
                        assert(hosts_overflow(args.deep_view().take(i + 1)));
                        assert(args.deep_view().take(i + 1).len() <= args.deep_view().len());
                        proof {
                            lemma_overflow_prefix(args.deep_view(), i + 1);
                        }
                        return true;
                    }
                },
                HostArg::Invalid => {
                    valid = false;
                },
                _ => {},
            }
        }
        i = i + 1;
    }
    assert(args.deep_view().take(i as int) =~= args.deep_view());
    false
}

proof fn lemma_overflow_prefix(args: Seq<Seq<char>>, k: int)
    requires
        0 <= k <= args.len(),
        hosts_overflow(args.take(k)),
    ensures
        hosts_overflow(args),
    decreases args.len(),
{
    if k < args.len() {
        assert(args.drop_last().take(k) =~= args.take(k));
        lemma_overflow_prefix(args.drop_last(), k);
    } else {
        assert(args.take(k) =~= args);
    }
}

/// The hosts that the arguments name, or `None` where one is invalid.
pub fn parse_host_args(args: &Vec<String>) -> (r: Option<Vec<u32>>)
    requires
        !hosts_overflow(args.deep_view()),
    ensures
        match r {
            Some(v) => hosts_of(args.deep_view()) == Some(v@),
            None => hosts_of(args.deep_view()) is None,
        },
{
    let mut hosts: Vec<u32> = Vec::new();
    let mut i: usize = 0;
    proof {
        lemma_no_overflow_prefix(args.deep_view(), 0);
    }
    while i < args.len()
        invariant
            i <= args.len(),
            !hosts_overflow(args.deep_view()),
            hosts_of(args.deep_view().take(i as int)) == Some(hosts@),
        decreases args.len() - i,
    {
        let ghost pre = args.deep_view().take(i as int);
        assert(args.deep_view().take(i + 1).drop_last() =~= pre);
        assert(args.deep_view().take(i + 1).last() == args[i as int]@);
        proof {
            lemma_no_overflow_prefix(args.deep_view(), i + 1);
        }
        let a = classify_arg(args[i].as_str());
        match a {
            HostArg::Single(n) => {
                hosts.push(n);
            },
            HostArg::Range(lo, hi) => {
                assert(hi < u32::MAX);
                let ghost start = hosts@;
                let mut v: u32 = lo;
                while v <= hi
                    invariant
                        lo <= v <= hi + 1,
                        hi < u32::MAX,
                        hosts@ == start + Seq::new((v - lo) as nat, |k: int| (lo + k) as u32),
                    decreases hi + 1 - v,
                {
                    hosts.push(v);
                    v = v + 1;
                    assert(hosts@ =~= start + Seq::new((v - lo) as nat, |k: int| (lo + k) as u32));
                }
                assert(hosts@ =~= start + arg_hosts(a));
            },
            HostArg::Invalid => {
                assert(hosts_of(args.deep_view().take(i + 1)) is None);
                proof {
                    lemma_invalid_prefix(args.deep_view(), i + 1);
                }
                return None;
            },
        }
        i = i + 1;
    }
    assert(args.deep_view().take(i as int) =~= args.deep_view());
    Some(hosts)
}

proof fn lemma_no_overflow_prefix(args: Seq<Seq<char>>, k: int)
    requires
        0 <= k <= args.len(),
        !hosts_overflow(args),
    ensures
        !hosts_overflow(args.take(k)),
{
    if hosts_overflow(args.take(k)) {
        lemma_overflow_prefix(args, k);
    }
}

proof fn lemma_invalid_prefix(args: Seq<Seq<char>>, k: int)
    requires
        0 <= k <= args.len(),
        hosts_of(args.take(k)) is None,
    ensures
        hosts_of(args) is None,
    decreases args.len(),
{
    if k < args.len() {
        assert(args.drop_last().take(k) =~= args.take(k));
        lemma_invalid_prefix(args.drop_last(), k);
    } else {
        assert(args.take(k) =~= args);
    }
}

/// A range and its reverse name the same hosts.
pub proof fn lemma_range_order_irrelevant(a: u32, b: u32)
    ensures
        host_arg(range_text(a, b)) == host_arg(range_text(b, a)),
{
    lemma_range_text(a, b);
    lemma_range_text(b, a);
}

/// `a:b`, written in decimal.
pub open spec fn range_text(a: u32, b: u32) -> Seq<char> {
    decimal(a as nat) + seq![':'] + decimal(b as nat)
}

proof fn lemma_range_text(a: u32, b: u32)
    ensures
        host_arg(range_text(a, b)) == (if a > b {
            HostArg::Range(b, a)
        } else {
            HostArg::Range(a, b)
        }),
{
    let s = range_text(a, b);
    let da = decimal(a as nat);
    let db = decimal(b as nat);
    lemma_decimal_digits(a as nat);
    lemma_decimal_digits(b as nat);
    assert(s[da.len() as int] == ':');
    assert(!all_digits(unsigned_body(s))) by {
        if s[0] == '+' {
        } else {
            assert(!is_ascii_digit(s[da.len() as int]));
        }
    }
    assert(parse_u32_spec(s) is None);
    assert(forall|j: int| 0 <= j < da.len() ==> s[j] != ':') by {
        assert forall|j: int| 0 <= j < da.len() implies s[j] != ':' by {
            assert(s[j] == da[j]);
            assert(is_ascii_digit(da[j]));
        }
    }
    assert(s.contains(':'));
    let w = choose|k: int| 0 <= k < s.len() && s[k] == ':' && forall|j: int| 0 <= j < k ==> s[j] != ':';
    assert(0 <= da.len() < s.len() && s[da.len() as int] == ':' && forall|j: int| 0 <= j < da.len() ==> s[j] != ':');
    if w < da.len() {
    } else if w > da.len() {
        assert(s[da.len() as int] != ':');
    }
    assert(first_index(s, ':') == Some(da.len() as int));
    assert(s.take(da.len() as int) =~= da);
    assert(s.skip(da.len() as int + 1) =~= db);
    assert(!db.contains(':')) by {
        if db.contains(':') {
            let j = choose|j: int| 0 <= j < db.len() && db[j] == ':';
            assert(is_ascii_digit(db[j]));
        }
    }
    lemma_parse_decimal_roundtrip(a as nat, u32::MAX as nat);
    lemma_parse_decimal_roundtrip(b as nat, u32::MAX as nat);
}

/// The status of one host as the status page shows it.
pub struct HostStatus {
    pub kind: String,
    pub status: bool,
}

/// Whether reading a status entry succeeds: it has a class, and an entry
/// marked as a success has an icon with a link.
pub open spec fn status_entry_readable(e: NestedNodeView) -> bool {
    &&& e.attr is Some
    &&& contains_seq(debug_quoted(e.attr->0), "success"@) ==> (e.inner_attr matches Some(Some(_)))
}

/// An entry whose quoted class mentions `success` is up, and its kind is
/// the quoted link of its icon; any other entry is down, of kind `NULL`.
pub open spec fn entry_is_up(e: NestedNodeView) -> bool {
    contains_seq(debug_quoted(e.attr->0), "success"@)
}

pub open spec fn entry_kind(e: NestedNodeView) -> Seq<char> {
    if entry_is_up(e) {
        debug_quoted(e.inner_attr->0->0)
    } else {
        "NULL"@
    }
}

/// The status of one entry of the status page.
pub fn host_status_of(e: &NestedNode) -> (r: HostStatus)
    requires
        status_entry_readable(e@),
    ensures
        r.status == entry_is_up(e@),
        r.kind@ == entry_kind(e@),
{
    let class = match &e.attr {
        Some(c) => c,
        None => {
            assert(false);
            return HostStatus { kind: String::new(), status: false };
        },
    };
    let quoted = debug_string(class.as_str());
    if contains_str(quoted.as_str(), "success") {
        match &e.inner_attr {
            Some(Some(href)) => HostStatus { kind: debug_string(href.as_str()), status: true },
            _ => {
                assert(false);
                HostStatus { kind: String::new(), status: false }
            },
        }
    } else {
        HostStatus { kind: "NULL".to_string(), status: false }
    }
}

/// The statuses of all entries, in page order.
pub fn host_statuses(entries: &Vec<NestedNode>) -> (r: Vec<HostStatus>)
    requires
        forall|i: int| 0 <= i < entries.len() ==> status_entry_readable(#[trigger] entries[i]@),
    ensures
        r.len() == entries.len(),
        forall|i: int|
            0 <= i < r.len() ==> (#[trigger] r[i]).status == entry_is_up(entries[i]@) && r[i].kind@
                == entry_kind(entries[i]@),
{
    let mut out: Vec<HostStatus> = Vec::new();
    let mut i: usize = 0;
    while i < entries.len()
        invariant
            i <= entries.len(),
            forall|j: int| 0 <= j < entries.len() ==> status_entry_readable(#[trigger] entries[j]@),
            out.len() == i,
            forall|j: int|
                0 <= j < i ==> (#[trigger] out[j]).status == entry_is_up(entries[j]@) && out[j].kind@
                    == entry_kind(entries[j]@),
        decreases entries.len() - i,
    {
        out.push(host_status_of(&entries[i]));
        i = i + 1;
    }
    out
}

pub open spec fn all_entries_readable(es: Seq<NestedNodeView>) -> bool {
    forall|i: int| 0 <= i < es.len() ==> status_entry_readable(#[trigger] es[i])
}

/// The status page is read from the first `div.col-sm`: each `li` below it,
/// with its `class`, and the `href` of the first `use` below that.
pub open spec fn status_page_entries(html: Seq<char>) -> Option<Option<Seq<NestedNodeView>>> {
    nested_nodes(html, "div.col-sm"@, "li"@, "class"@, "use"@, "href"@)
}

/// The host statuses that a status page shows, or `None` where the page
/// cannot be read: it has no `div.col-sm`, an entry has no class, or an
/// entry marked as a success has no icon link.
pub fn scrape_host_statuses(html: &str) -> (r: Option<Vec<HostStatus>>)
    ensures
        match status_page_entries(html@) {
            Some(Some(es)) => if all_entries_readable(es) {
                r matches Some(v) && v.len() == es.len() && forall|i: int|
                    0 <= i < v.len() ==> (#[trigger] v[i]).status == entry_is_up(es[i]) && v[i].kind@
                        == entry_kind(es[i])
            } else {
                r is None
            },
            _ => r is None,
        },
{
    let found = select_nested(html, "div.col-sm", "li", "class", "use", "href");
    let entries = match found {
        Some(Some(es)) => es,
        _ => return None,
    };
    let mut i: usize = 0;
    while i < entries.len()
        invariant
            i <= entries.len(),
            status_page_entries(html@) == Some(Some(nested_view(entries@))),
            forall|j: int| 0 <= j < i ==> status_entry_readable(#[trigger] entries[j]@),
        decreases entries.len() - i,
    {
        if !entry_readable(&entries[i]) {
            let ghost es = nested_view(entries@);
            assert(!status_entry_readable(es[i as int]));
            assert(!(forall|j: int| 0 <= j < es.len() ==> status_entry_readable(#[trigger] es[j])));
            return None;
        }
        i = i + 1;
    }
    assert(forall|j: int| 0 <= j < entries.len() ==> nested_view(entries@)[j] == entries[j]@);
    Some(host_statuses(&entries))
}

fn entry_readable(e: &NestedNode) -> (r: bool)
    ensures
        r == status_entry_readable(e@),
{
    match &e.attr {
        None => false,
        Some(c) => {
            let quoted = debug_string(c.as_str());
            if contains_str(quoted.as_str(), "success") {
                match &e.inner_attr {
                    Some(Some(_)) => true,
                    _ => false,
                }
            } else {
                true
            }
        },
    }
}

/// The address the command connects to: the host name, `1`, the domain,
/// and port 22.
pub fn ssh_target(host: &str, domain: &str) -> (r: String)
    ensures
        r@ == host@ + "1"@ + domain@ + ":22"@,
{
    let mut out = host.to_string();
    out.append("1");
    out.append(domain);
    out.append(":22");
    out
}

/// What the command answers when an argument cannot be read.
pub fn ssh_usage() -> (r: &'static str)
    ensures
        r@ == "Argument Error! Usage: ssh <num1>, <num2>,... or <num1>:<num2>"@,
{
    "Argument Error! Usage: ssh <num1>, <num2>,... or <num1>:<num2>"
}

/// A list of numbers as `Debug` writes it: `[1, 2, 3]`.
pub open spec fn number_list(v: Seq<u32>) -> Seq<char> {
    "["@ + list_items(v) + "]"@
}

pub open spec fn list_items(v: Seq<u32>) -> Seq<char>
    decreases v.len(),
{
    if v.len() == 0 {
        Seq::empty()
    } else if v.len() == 1 {
        decimal(v[0] as nat)
    } else {
        list_items(v.drop_last()) + ", "@ + decimal(v.last() as nat)
    }
}

/// What the command answers once it has run: the hosts it read.
pub fn argument_reply(hosts: &Vec<u32>) -> (r: String)
    ensures
        r@ == "Argument test! "@ + number_list(hosts@),
{
    let mut out = "Argument test! ".to_string();
    out.append("[");
    let ghost head = out@;
    let mut i: usize = 0;
    while i < hosts.len()
        invariant
            i <= hosts.len(),
            out@ == head + list_items(hosts@.take(i as int)),
        decreases hosts.len() - i,
    {
        assert(hosts@.take(i + 1).drop_last() =~= hosts@.take(i as int));
        if i > 0 {
            out.append(", ");
        }
        push_decimal(&mut out, hosts[i] as u64);
        i = i + 1;
        if i == 1 {
            assert(hosts@.take(1) =~= seq![hosts@[0]]);
        }
        assert(out@ =~= head + list_items(hosts@.take(i as int)));
    }
    assert(hosts@.take(i as int) =~= hosts@);
    out.append("]");
    assert(out@ =~= "Argument test! "@ + number_list(hosts@));
    out
}


} // verus!
