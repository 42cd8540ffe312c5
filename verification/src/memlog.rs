use vstd::prelude::*;
use crate::text::{
    strings_view,
    chars_of, decimal, eq_str, find, find_char, first_word, first_word_bounds, line_at, lines,
    parse_u64, push_decimal,
    parse_u64_chars, slice_chars,
};

verus! {

/// The header line of the memory log's CSV output.
pub const CSV_HEADER: &'static str = "timestamp_unix,uptime_s,pid,vm_rss_kb,vm_size_kb,rss_kb,pss_kb,anonymous_kb,private_dirty_kb,private_clean_kb,shared_dirty_kb,shared_clean_kb";

/// Per-process sums of the `/proc/<pid>/smaps` fields, in KiB.
#[derive(Debug, PartialEq, Eq, Structural)]
pub struct SmapsTotals {
    pub rss_kb: u64,
    pub pss_kb: u64,
    pub anonymous_kb: u64,
    pub private_dirty_kb: u64,
    pub private_clean_kb: u64,
    pub shared_dirty_kb: u64,
    pub shared_clean_kb: u64,
}

impl Default for SmapsTotals {
    fn default() -> (r: Self)
        ensures
            r == (SmapsTotals {
                rss_kb: 0,
                pss_kb: 0,
                anonymous_kb: 0,
                private_dirty_kb: 0,
                private_clean_kb: 0,
                shared_dirty_kb: 0,
                shared_clean_kb: 0,
            }),
    {
        SmapsTotals {
            rss_kb: 0,
            pss_kb: 0,
            anonymous_kb: 0,
            private_dirty_kb: 0,
            private_clean_kb: 0,
            shared_dirty_kb: 0,
            shared_clean_kb: 0,
        }
    }
}

/// The smaps field that column `k` of the totals sums.
pub open spec fn smaps_key(k: int) -> Seq<char> {
    if k == 0 {
        "Rss"@
    } else if k == 1 {
        "Pss"@
    } else if k == 2 {
        "Anonymous"@
    } else if k == 3 {
        "Private_Dirty"@
    } else if k == 4 {
        "Private_Clean"@
    } else if k == 5 {
        "Shared_Dirty"@
    } else {
        "Shared_Clean"@
    }
}

/// The key and first word of a `Key: word ...` line: the text before the
/// first colon, and the first white-space separated word after it (the empty
/// string when there is none). `None` when the line has no colon.
pub open spec fn colon_entry(line: Seq<char>) -> Option<(Seq<char>, Seq<char>)> {
    match find(line, ':') {
        None => None,
        Some(i) => Some(
            (
                line.take(i),
                match first_word(line.skip(i + 1)) {
                    Some(t) => t,
                    None => Seq::empty(),
                },
            ),
        ),
    }
}

/// The key and amount of a `Key: amount ...` line; `None` when there is no
/// colon or the word after it is no `u64`.
pub open spec fn smaps_entry(line: Seq<char>) -> Option<(Seq<char>, u64)> {
    match colon_entry(line) {
        None => None,
        Some(e) => match parse_u64(e.1) {
            Some(v) => Some((e.0, v)),
            None => None,
        },
    }
}

/// What one line adds to the total of `key`.
pub open spec fn entry_amount(line: Seq<char>, key: Seq<char>) -> nat {
    match smaps_entry(line) {
        Some(e) => if e.0 == key {
            e.1 as nat
        } else {
            0
        },
        None => 0,
    }
}

/// The sum over `ls` of the amounts of `key`.
pub open spec fn field_total(ls: Seq<Seq<char>>, key: Seq<char>) -> nat
    decreases ls.len(),
{
    if ls.len() == 0 {
        0
    } else {
        field_total(ls.drop_last(), key) + entry_amount(ls.last(), key)
    }
}

/// The total of field `k` over the lines of `text`.
pub open spec fn smaps_total(text: Seq<char>, k: int) -> nat {
    field_total(lines(text), smaps_key(k))
}

proof fn lemma_field_total_append(a: Seq<Seq<char>>, b: Seq<Seq<char>>, key: Seq<char>)
    ensures
        field_total(a, key) <= field_total(a + b, key),
    decreases b.len(),
{
    if b.len() > 0 {
        assert((a + b).drop_last() =~= a + b.drop_last());
        lemma_field_total_append(a, b.drop_last(), key);
    } else {
        assert(a + b =~= a);
    }
}

proof fn lemma_smaps_keys_distinct()
    ensures
        forall|j: int, k: int| 0 <= j < 7 && 0 <= k < 7 && j != k ==> smaps_key(j) != smaps_key(k),
{
    reveal_strlit("Rss");
    reveal_strlit("Pss");
    reveal_strlit("Anonymous");
    reveal_strlit("Private_Dirty");
    reveal_strlit("Private_Clean");
    reveal_strlit("Shared_Dirty");
    reveal_strlit("Shared_Clean");
    assert forall|j: int, k: int| 0 <= j < 7 && 0 <= k < 7 && j != k implies smaps_key(j)
        != smaps_key(k) by {
        if smaps_key(j) == smaps_key(k) {
            assert(smaps_key(j).len() == smaps_key(k).len());
            assert(smaps_key(j)[0] == smaps_key(k)[0]);
            assert(smaps_key(j)[1] == smaps_key(k)[1]);
            assert(smaps_key(j)[8] == smaps_key(k)[8]);
        }
    }
}

fn key_index(key: &[char]) -> (r: Option<usize>)
    ensures
        r matches Some(k) ==> k < 7 && key@ == smaps_key(k as int),
        r is None ==> forall|k: int| 0 <= k < 7 ==> key@ != smaps_key(k),
{
    if eq_str(key, "Rss") {
        Some(0)
    } else if eq_str(key, "Pss") {
        Some(1)
    } else if eq_str(key, "Anonymous") {
        Some(2)
    } else if eq_str(key, "Private_Dirty") {
        Some(3)
    } else if eq_str(key, "Private_Clean") {
        Some(4)
    } else if eq_str(key, "Shared_Dirty") {
        Some(5)
    } else if eq_str(key, "Shared_Clean") {
        Some(6)
    } else {
        None
    }
}

/// The key and first word of the line `cs[start..end]`.
fn line_colon_entry(cs: &[char], start: usize, end: usize) -> (r: Option<(Vec<char>, Vec<char>)>)
    requires
        start <= end <= cs@.len(),
    ensures
        colon_entry(cs@.subrange(start as int, end as int)) is None ==> r is None,
        colon_entry(cs@.subrange(start as int, end as int)) matches Some(e) ==> (r matches Some(
            (k, t),
        ) && k@ == e.0 && t@ == e.1),
{
    let ghost line = cs@.subrange(start as int, end as int);
    let colon = match find_char(cs, start, end, ':') {
        None => return None,
        Some(c) => c,
    };
    proof {
        crate::text::lemma_find_bounds(line, ':');
    }
    assert(line.skip(colon - start + 1) =~= cs@.subrange(colon + 1, end as int));
    let token = match first_word_bounds(cs, colon + 1, end) {
        Some((a, b)) => slice_chars(cs, a, b),
        None => Vec::new(),
    };
    let key = slice_chars(cs, start, colon);
    assert(line.take(colon - start) =~= key@);
    Some((key, token))
}

/// The key and amount of the line `cs[start..end]`.
fn line_entry(cs: &[char], start: usize, end: usize) -> (r: Option<(Option<usize>, u64)>)
    requires
        start <= end <= cs@.len(),
    ensures
        smaps_entry(cs@.subrange(start as int, end as int)) is None ==> r is None,
        smaps_entry(cs@.subrange(start as int, end as int)) matches Some(e) ==> (r matches Some(
            (k, v),
        ) && v == e.1 && (k matches Some(ki) ==> ki < 7 && e.0 == smaps_key(ki as int)) && (
        k is None ==> forall|j: int| 0 <= j < 7 ==> e.0 != smaps_key(j))),
{
    let (key, token) = match line_colon_entry(cs, start, end) {
        None => return None,
        Some(e) => e,
    };
    let value = match parse_u64_chars(&token) {
        Some(v) => v,
        None => return None,
    };
    Some((key_index(&key), value))
}

impl SmapsTotals {
    /// Sums the `Rss`, `Pss`, `Anonymous`, `Private_Dirty`, `Private_Clean`,
    /// `Shared_Dirty` and `Shared_Clean` fields of an smaps listing; lines with
    /// other keys, without a colon or without a number are skipped. `None` when
    /// a sum exceeds `u64::MAX`.
    pub fn parse(text: &str) -> (r: Option<Self>)
        ensures
            (forall|k: int| 0 <= k < 7 ==> #[trigger] smaps_total(text@, k) <= u64::MAX) <==> r is Some,
            r matches Some(t) ==> {
                &&& t.rss_kb == smaps_total(text@, 0)
                &&& t.pss_kb == smaps_total(text@, 1)
                &&& t.anonymous_kb == smaps_total(text@, 2)
                &&& t.private_dirty_kb == smaps_total(text@, 3)
                &&& t.private_clean_kb == smaps_total(text@, 4)
                &&& t.shared_dirty_kb == smaps_total(text@, 5)
                &&& t.shared_clean_kb == smaps_total(text@, 6)
            },
    {
        let cs = chars_of(text);
        let len = cs.len();
        let mut sums: Vec<u64> = vec![0, 0, 0, 0, 0, 0, 0];
        let ghost mut done: Seq<Seq<char>> = Seq::empty();
        let mut pos: usize = 0;
        assert(cs@.subrange(0, len as int) =~= cs@);
        while pos < len
            invariant
                len == cs@.len(),
                cs@ == text@,
                pos <= len,
                sums@.len() == 7,
                lines(cs@) == done + lines(cs@.subrange(pos as int, len as int)),
                forall|k: int| 0 <= k < 7 ==> #[trigger] sums@[k] == field_total(done, smaps_key(k)),
            decreases len - pos,
        {
            let (end, next) = line_at(&cs, pos);
            let ghost line = cs@.subrange(pos as int, end as int);
            let ghost next_done = done.push(line);
            assert(next_done.drop_last() =~= done);
            assert(done + lines(cs@.subrange(pos as int, len as int)) =~= next_done + lines(
                cs@.subrange(next as int, len as int),
            ));
            let entry = line_entry(&cs, pos, end);
            match entry {
                Some((Some(k), value)) => {
                    let current = sums[k];
                    match current.checked_add(value) {
                        Some(total) => {
                            sums.set(k, total);
                        },
                        None => {
                            proof {
                                assert(field_total(next_done, smaps_key(k as int)) > u64::MAX);
                                lemma_field_total_append(
                                    next_done,
                                    lines(cs@.subrange(next as int, len as int)),
                                    smaps_key(k as int),
                                );
                                assert(smaps_total(text@, k as int) > u64::MAX);
                            }
                            return None;
                        },
                    }
                },
                _ => {},
            }
            proof {
                lemma_smaps_keys_distinct();
                assert forall|j: int| 0 <= j < 7 implies #[trigger] sums@[j] == field_total(
                    next_done,
                    smaps_key(j),
                ) by {
                    match entry {
                        Some((Some(k), v)) => {
                            if j != k {
                                assert(smaps_key(j) != smaps_key(k as int));
                            }
                        },
                        _ => {},
                    }
                    assert(field_total(next_done, smaps_key(j)) == field_total(done, smaps_key(j))
                        + entry_amount(line, smaps_key(j)));
                }
                done = next_done;
            }
            pos = next;
        }
        assert(cs@.subrange(len as int, len as int) =~= Seq::<char>::empty());
        assert(lines(Seq::<char>::empty()) =~= Seq::<Seq<char>>::empty());
        assert(done + Seq::<Seq<char>>::empty() =~= done);
        Some(
            SmapsTotals {
                rss_kb: sums[0],
                pss_kb: sums[1],
                anonymous_kb: sums[2],
                private_dirty_kb: sums[3],
                private_clean_kb: sums[4],
                shared_dirty_kb: sums[5],
                shared_clean_kb: sums[6],
            },
        )
    }
}

} // verus!

verus! {

/// The options of the memory logger.
#[derive(Debug)]
pub struct MemlogOptions {
    /// Sampling interval in seconds.
    pub interval: u64,
    /// File to append CSV rows to; standard output when absent.
    pub output: Option<String>,
    /// Process `comm` name to follow.
    pub process_name: String,
}

/// What the command line asks of the memory logger.
#[derive(Debug)]
pub enum Invocation {
    /// Print usage and exit successfully.
    Help,
    /// Log with these options.
    Run(MemlogOptions),
}

/// The options gathered while the command line is scanned.
pub struct OptionScan {
    pub interval: u64,
    pub output: Option<Seq<char>>,
    pub name: Seq<char>,
    pub positional: Seq<Seq<char>>,
}

/// Where scanning the command line ends.
pub enum ScanEnd {
    Help,
    Failed(Seq<char>),
    Scanned(OptionScan),
}

/// What a command line means, as values.
pub enum MemlogPlan {
    Help,
    Run { interval: u64, output: Option<Seq<char>>, name: Seq<char> },
    Fail(Seq<char>),
}

/// Scans `args` from position `i` on, options first-come.
pub open spec fn scan_options(args: Seq<Seq<char>>, i: int, st: OptionScan) -> ScanEnd
    decreases args.len() - i,
{
    if i < 0 || i >= args.len() {
        ScanEnd::Scanned(st)
    } else {
        let a = args[i];
        if a == "-h"@ || a == "--help"@ {
            ScanEnd::Help
        } else if a == "--interval"@ {
            if i + 1 >= args.len() {
                ScanEnd::Failed("--interval requires a value"@)
            } else {
                match parse_u64(args[i + 1]) {
                    None => ScanEnd::Failed("invalid interval"@),
                    Some(v) => scan_options(args, i + 2, OptionScan { interval: v, ..st }),
                }
            }
        } else if a == "--output"@ {
            if i + 1 >= args.len() {
                ScanEnd::Failed("--output requires a value"@)
            } else {
                scan_options(args, i + 2, OptionScan { output: Some(args[i + 1]), ..st })
            }
        } else if a == "--process-name"@ || a == "--name"@ {
            if i + 1 >= args.len() {
                ScanEnd::Failed("--process-name requires a value"@)
            } else {
                scan_options(args, i + 2, OptionScan { name: args[i + 1], ..st })
            }
        } else if crate::text::starts_with(a, "--"@) {
            ScanEnd::Failed("unknown option: "@ + a)
        } else {
            scan_options(args, i + 1, OptionScan { positional: st.positional.push(a), ..st })
        }
    }
}

/// What the memory logger's command line (without the program name) asks.
pub open spec fn memlog_plan(args: Seq<Seq<char>>) -> MemlogPlan {
    let initial = OptionScan {
        interval: 5,
        output: None,
        name: "ped"@,
        positional: Seq::empty(),
    };
    match scan_options(args, 0, initial) {
        ScanEnd::Help => MemlogPlan::Help,
        ScanEnd::Failed(e) => MemlogPlan::Fail(e),
        ScanEnd::Scanned(st) => {
            let interval = if st.positional.len() > 0 {
                parse_u64(st.positional[0])
            } else {
                Some(st.interval)
            };
            let output = if st.positional.len() > 1 {
                Some(st.positional[1])
            } else {
                st.output
            };
            match interval {
                None => MemlogPlan::Fail("invalid interval"@),
                Some(0) => MemlogPlan::Fail("interval must be greater than zero"@),
                Some(v) => if st.name.len() == 0 || find(st.name, '\r') is Some || find(
                    st.name,
                    '\n',
                ) is Some {
                    MemlogPlan::Fail("process name must not be empty or contain a newline"@)
                } else {
                    MemlogPlan::Run { interval: v, output, name: st.name }
                },
            }
        },
    }
}

/// The characters of an optional string.
pub open spec fn opt_view(o: Option<String>) -> Option<Seq<char>> {
    match o {
        Some(s) => Some(s@),
        None => None,
    }
}

/// The plan that a parse result stands for.
pub open spec fn invocation_plan(r: Result<Invocation, String>) -> MemlogPlan {
    match r {
        Ok(Invocation::Help) => MemlogPlan::Help,
        Ok(Invocation::Run(o)) => MemlogPlan::Run {
            interval: o.interval,
            output: opt_view(o.output),
            name: o.process_name@,
        },
        Err(e) => MemlogPlan::Fail(e@),
    }
}

/// The value that follows an option, or the error that names the option.
pub fn next_value(args: &Vec<String>, index: usize, option: &str) -> (r: Result<String, String>)
    ensures
        index < args@.len() ==> r == Ok::<String, String>(args@[index as int]),
        index >= args@.len() ==> (r matches Err(e) && e@ == option@ + " requires a value"@),
{
    if index < args.len() {
        Ok(args[index].clone())
    } else {
        let mut msg: Vec<char> = Vec::new();
        crate::text::push_str(&mut msg, option);
        crate::text::push_str(&mut msg, " requires a value");
        Err(crate::text::string_of(&msg))
    }
}

fn error_string(text: &str) -> (r: String)
    ensures
        r@ == text@,
{
    let cs = chars_of(text);
    crate::text::string_of(&cs)
}

/// Reads the memory logger's command line (without the program name):
/// `--interval SECONDS`, `--output PATH`, `--process-name NAME` (or `--name`),
/// `-h`/`--help`, and the positional `interval_seconds` and `output.csv`.
pub fn parse_options(args: &Vec<String>) -> (r: Result<Invocation, String>)
    ensures
        invocation_plan(r) == memlog_plan(strings_view(args@)),
{
    let ghost av = strings_view(args@);
    let mut interval: u64 = 5;
    let mut output: Option<String> = None;
    let mut process_name = error_string("ped");
    let mut positional: Vec<String> = Vec::new();
    let ghost initial = OptionScan {
        interval: 5,
        output: None,
        name: "ped"@,
        positional: Seq::empty(),
    };
    let mut i: usize = 0;
    assert(strings_view(positional@) =~= Seq::<Seq<char>>::empty());
    while i < args.len()
        invariant
            av == strings_view(args@),
            av.len() == args@.len(),
            initial == (OptionScan {
                interval: 5,
                output: None,
                name: "ped"@,
                positional: Seq::empty(),
            }),
            i <= args@.len(),
            scan_options(av, 0, initial) == scan_options(
                av,
                i as int,
                OptionScan {
                    interval,
                    output: opt_view(output),
                    name: process_name@,
                    positional: strings_view(positional@),
                },
            ),
        decreases args.len() - i,
    {
        let arg = &args[i];
        let cs = chars_of(arg.as_str());
        assert(av[i as int] == cs@);
        if crate::text::eq_str(&cs, "-h") || crate::text::eq_str(&cs, "--help") {
            return Ok(Invocation::Help);
        } else if crate::text::eq_str(&cs, "--interval") {
            let value = match next_value(args, i + 1, "--interval") {
                Ok(v) => v,
                Err(e) => {
                    proof {
                        reveal_strlit("--interval");
                        reveal_strlit(" requires a value");
                        reveal_strlit("--interval requires a value");
                        assert(e@ =~= "--interval requires a value"@);
                    }
                    return Err(e);
                },
            };
            let vcs = chars_of(value.as_str());
            assert(av[i + 1] == vcs@);
            interval = match parse_u64_chars(&vcs) {
                Some(v) => v,
                None => return Err(error_string("invalid interval")),
            };
            i = i + 2;
        } else if crate::text::eq_str(&cs, "--output") {
            let value = match next_value(args, i + 1, "--output") {
                Ok(v) => v,
                Err(e) => {
                    proof {
                        reveal_strlit("--output");
                        reveal_strlit(" requires a value");
                        reveal_strlit("--output requires a value");
                        assert(e@ =~= "--output requires a value"@);
                    }
                    return Err(e);
                },
            };
            assert(av[i + 1] == value@);
            output = Some(value);
            i = i + 2;
        } else if crate::text::eq_str(&cs, "--process-name") || crate::text::eq_str(&cs, "--name") {
            let value = match next_value(args, i + 1, "--process-name") {
                Ok(v) => v,
                Err(e) => {
                    proof {
                        reveal_strlit("--process-name");
                        reveal_strlit(" requires a value");
                        reveal_strlit("--process-name requires a value");
                        assert(e@ =~= "--process-name requires a value"@);
                    }
                    return Err(e);
                },
            };
            assert(av[i + 1] == value@);
            process_name = value;
            i = i + 2;
        } else if crate::text::starts_with_str(&cs, "--") {
            let mut msg: Vec<char> = Vec::new();
            crate::text::push_str(&mut msg, "unknown option: ");
            crate::text::push_chars(&mut msg, &cs);
            return Err(crate::text::string_of(&msg));
        } else {
            let ghost before = positional@;
            positional.push(arg.clone());
            assert(strings_view(positional@) =~= strings_view(before).push(cs@));
            i = i + 1;
        }
    }
    if positional.len() > 0 {
        let pcs = chars_of(positional[0].as_str());
        assert(strings_view(positional@)[0] == pcs@);
        interval = match parse_u64_chars(&pcs) {
            Some(v) => v,
            None => return Err(error_string("invalid interval")),
        };
    }
    if positional.len() > 1 {
        output = Some(positional[1].clone());
        assert(strings_view(positional@)[1] == positional@[1]@);
    }
    if interval == 0 {
        return Err(error_string("interval must be greater than zero"));
    }
    let ncs = chars_of(process_name.as_str());
    assert(ncs@.subrange(0, ncs@.len() as int) =~= ncs@);
    if ncs.len() == 0 || find_char(&ncs, 0, ncs.len(), '\r').is_some() || find_char(
        &ncs,
        0,
        ncs.len(),
        '\n',
    ).is_some() {
        return Err(error_string("process name must not be empty or contain a newline"));
    }
    Ok(Invocation::Run(MemlogOptions { interval, output, process_name }))
}

} // verus!

verus! {

/// The value that the last line with key `key` gives (`None` when that word
/// is no `u64`, or no line has the key).
pub open spec fn last_status_value(ls: Seq<Seq<char>>, key: Seq<char>) -> Option<u64>
    decreases ls.len(),
{
    if ls.len() == 0 {
        None
    } else {
        match colon_entry(ls.last()) {
            Some(e) => if e.0 == key {
                parse_u64(e.1)
            } else {
                last_status_value(ls.drop_last(), key)
            },
            None => last_status_value(ls.drop_last(), key),
        }
    }
}

/// Reads `VmRSS` and `VmSize` (KiB) from a `/proc/<pid>/status` listing;
/// the last line of each key counts.
pub fn parse_status(text: &str) -> (r: Result<(u64, u64), String>)
    ensures
        last_status_value(lines(text@), "VmRSS"@) is Some && last_status_value(
            lines(text@),
            "VmSize"@,
        ) is Some ==> r == Ok::<(u64, u64), String>(
            (
                last_status_value(lines(text@), "VmRSS"@).unwrap(),
                last_status_value(lines(text@), "VmSize"@).unwrap(),
            ),
        ),
        last_status_value(lines(text@), "VmRSS"@) is None || last_status_value(
            lines(text@),
            "VmSize"@,
        ) is None ==> (r matches Err(e) && e@ == "missing VmRSS or VmSize"@),
{
    let cs = chars_of(text);
    let len = cs.len();
    let mut rss: Option<u64> = None;
    let mut size: Option<u64> = None;
    let ghost mut done: Seq<Seq<char>> = Seq::empty();
    let mut pos: usize = 0;
    assert(cs@.subrange(0, len as int) =~= cs@);
    while pos < len
        invariant
            len == cs@.len(),
            cs@ == text@,
            pos <= len,
            lines(cs@) == done + lines(cs@.subrange(pos as int, len as int)),
            rss == last_status_value(done, "VmRSS"@),
            size == last_status_value(done, "VmSize"@),
        decreases len - pos,
    {
        let (end, next) = line_at(&cs, pos);
        let ghost line = cs@.subrange(pos as int, end as int);
        let ghost next_done = done.push(line);
        assert(next_done.drop_last() =~= done);
        assert(done + lines(cs@.subrange(pos as int, len as int)) =~= next_done + lines(
            cs@.subrange(next as int, len as int),
        ));
        match line_colon_entry(&cs, pos, end) {
            Some((key, token)) => {
                if eq_str(&key, "VmRSS") {
                    rss = parse_u64_chars(&token);
                } else if eq_str(&key, "VmSize") {
                    size = parse_u64_chars(&token);
                }
                proof {
                    reveal_strlit("VmRSS");
                    reveal_strlit("VmSize");
                    assert("VmRSS"@ != "VmSize"@) by {
                        assert("VmRSS"@.len() != "VmSize"@.len());
                    }
                }
            },
            None => {},
        }
        proof {
            done = next_done;
        }
        pos = next;
    }
    assert(cs@.subrange(len as int, len as int) =~= Seq::<char>::empty());
    assert(lines(Seq::<char>::empty()) =~= Seq::<Seq<char>>::empty());
    assert(done + Seq::<Seq<char>>::empty() =~= done);
    match (rss, size) {
        (Some(rss), Some(size)) => Ok((rss, size)),
        _ => Err(error_string("missing VmRSS or VmSize")),
    }
}

/// One `/proc` entry: its file name and, when it could be read, its `comm`.
pub open spec fn process_matches(entry: (Seq<char>, Option<Seq<char>>), name: Seq<char>) -> Option<
    u32,
> {
    match crate::text::parse_u32(entry.0) {
        Some(pid) => match entry.1 {
            Some(comm) => if crate::text::trim_end_newlines(comm) == name {
                Some(pid)
            } else {
                None
            },
            None => None,
        },
        None => None,
    }
}

/// The smallest PID among the first `n` entries whose `comm` (without
/// trailing line breaks) is `name`.
pub open spec fn smallest_match(
    entries: Seq<(Seq<char>, Option<Seq<char>>)>,
    name: Seq<char>,
    n: int,
) -> Option<u32>
    decreases n,
{
    if n <= 0 {
        None
    } else {
        let prev = smallest_match(entries, name, n - 1);
        match process_matches(entries[n - 1], name) {
            Some(pid) => match prev {
                Some(cur) => Some(if cur <= pid { cur } else { pid }),
                None => Some(pid),
            },
            None => prev,
        }
    }
}

/// The entries as values.
pub open spec fn entries_view(entries: Seq<(String, Option<String>)>) -> Seq<
    (Seq<char>, Option<Seq<char>>),
> {
    entries.map_values(|e: (String, Option<String>)| (e.0@, opt_view(e.1)))
}

/// Picks the process to follow from the `/proc` entries: the smallest numeric
/// entry whose `comm` is `name`.
pub fn select_process(entries: &Vec<(String, Option<String>)>, name: &str) -> (r: Option<u32>)
    ensures
        r == smallest_match(entries_view(entries@), name@, entries@.len() as int),
{
    let ghost ev = entries_view(entries@);
    let name_cs = chars_of(name);
    let mut found: Option<u32> = None;
    let mut i: usize = 0;
    while i < entries.len()
        invariant
            ev == entries_view(entries@),
            name_cs@ == name@,
            i <= entries@.len(),
            found == smallest_match(ev, name@, i as int),
        decreases entries.len() - i,
    {
        let (file_name, comm) = &entries[i];
        assert(ev[i as int] == (file_name@, opt_view(*comm)));
        let fcs = chars_of(file_name.as_str());
        match parse_u32_chars_of(&fcs) {
            Some(pid) => match comm {
                Some(comm) => {
                    let ccs = chars_of(comm.as_str());
                    let keep = crate::text::trim_end_newlines_len(&ccs);
                    let trimmed = slice_chars(&ccs, 0, keep);
                    assert(trimmed@ =~= ccs@.take(keep as int));
                    if crate::text::chars_eq(&trimmed, &name_cs) {
                        found = match found {
                            Some(cur) => Some(if cur <= pid { cur } else { pid }),
                            None => Some(pid),
                        };
                    }
                },
                None => {},
            },
            None => {},
        }
        i = i + 1;
    }
    found
}

fn parse_u32_chars_of(cs: &[char]) -> (r: Option<u32>)
    ensures
        r == crate::text::parse_u32(cs@),
{
    crate::text::parse_u32_chars(cs)
}

} // verus!

verus! {

/// The sample timestamp for a reading of the system clock in whole seconds
/// since the Unix epoch (`None`: the clock is before the epoch).
pub fn timestamp_from_secs(secs: Option<u64>) -> (r: Result<i64, String>)
    ensures
        match secs {
            Some(s) => r == Ok::<i64, String>(s as i64),
            None => r matches Err(e) && e@ == "system clock is before Unix epoch"@,
        },
{
    match secs {
        Some(s) => Ok(s as i64),
        None => Err(error_string("system clock is before Unix epoch")),
    }
}

/// The current time as a Unix timestamp in seconds. The clock is read
/// outside the proof; whatever it says, the result is `timestamp_from_secs`
/// of that reading, so it is an error exactly when the clock reads before
/// the epoch.
pub fn unix_timestamp() -> (r: Result<i64, String>)
    ensures
        r matches Err(e) ==> e@ == "system clock is before Unix epoch"@,
{
    let secs = crate::wrappers::secs_since_epoch();
    timestamp_from_secs(secs)
}

} // verus!

verus! {

/// The logger only ever runs with a positive interval and with a process
/// name that is not empty and holds no line break.
pub proof fn lemma_runs_are_well_formed(args: Seq<Seq<char>>)
    ensures
        memlog_plan(args) matches MemlogPlan::Run { interval, name, .. } ==> interval > 0
            && name.len() > 0 && find(name, '\r') is None && find(name, '\n') is None,
{
}

/// Without arguments the logger follows `ped` every 5 seconds, on standard
/// output.
pub proof fn lemma_default_invocation()
    ensures
        memlog_plan(Seq::empty()) == (MemlogPlan::Run { interval: 5, output: None, name: "ped"@ }),
{
    reveal_strlit("ped");
    assert(find("ped"@, '\r') is None) by {
        crate::text::lemma_find_bounds("ped"@, '\r');
    }
    assert(find("ped"@, '\n') is None) by {
        crate::text::lemma_find_bounds("ped"@, '\n');
    }
}

} // verus!

verus! {

/// One CSV row: timestamp, uptime (already written with two decimals),
/// pid, the two status figures and the seven smaps totals.
pub open spec fn csv_text(
    timestamp_unix: i64,
    uptime_s: Seq<char>,
    pid: u32,
    vm_rss_kb: u64,
    vm_size_kb: u64,
    t: SmapsTotals,
) -> Seq<char> {
    crate::text::signed_decimal(timestamp_unix as int) + ","@ + uptime_s + ","@ + decimal(pid as nat)
        + ","@ + decimal(vm_rss_kb as nat) + ","@ + decimal(vm_size_kb as nat) + ","@ + decimal(
        t.rss_kb as nat,
    ) + ","@ + decimal(t.pss_kb as nat) + ","@ + decimal(t.anonymous_kb as nat) + ","@ + decimal(
        t.private_dirty_kb as nat,
    ) + ","@ + decimal(t.private_clean_kb as nat) + ","@ + decimal(t.shared_dirty_kb as nat)
        + ","@ + decimal(t.shared_clean_kb as nat)
}

/// Formats one sample as a CSV row in the order of `CSV_HEADER`. The uptime
/// comes already formatted with two decimals.
pub fn csv_row(
    timestamp_unix: i64,
    uptime_s: &str,
    pid: u32,
    vm_rss_kb: u64,
    vm_size_kb: u64,
    totals: &SmapsTotals,
) -> (r: String)
    ensures
        r@ == csv_text(timestamp_unix, uptime_s@, pid, vm_rss_kb, vm_size_kb, *totals),
{
    let mut out: Vec<char> = Vec::new();
    crate::text::push_signed(&mut out, timestamp_unix);
    crate::text::push_str(&mut out, ",");
    crate::text::push_str(&mut out, uptime_s);
    crate::text::push_str(&mut out, ",");
    push_decimal(&mut out, pid as u64);
    crate::text::push_str(&mut out, ",");
    push_decimal(&mut out, vm_rss_kb);
    crate::text::push_str(&mut out, ",");
    push_decimal(&mut out, vm_size_kb);
    crate::text::push_str(&mut out, ",");
    push_decimal(&mut out, totals.rss_kb);
    crate::text::push_str(&mut out, ",");
    push_decimal(&mut out, totals.pss_kb);
    crate::text::push_str(&mut out, ",");
    push_decimal(&mut out, totals.anonymous_kb);
    crate::text::push_str(&mut out, ",");
    push_decimal(&mut out, totals.private_dirty_kb);
    crate::text::push_str(&mut out, ",");
    push_decimal(&mut out, totals.private_clean_kb);
    crate::text::push_str(&mut out, ",");
    push_decimal(&mut out, totals.shared_dirty_kb);
    crate::text::push_str(&mut out, ",");
    push_decimal(&mut out, totals.shared_clean_kb);
    crate::text::string_of(&out)
}

/// What the logger says when the followed process is looked up again, and
/// which pid it follows next.
pub open spec fn tracking(name: Seq<char>, previous: Option<u32>, found: Option<u32>) -> (
    Option<u32>,
    Option<Seq<char>>,
) {
    match found {
        None => (
            None,
            Some(
                name + if previous is Some {
                    " process exited"@
                } else {
                    " process not found"@
                },
            ),
        ),
        Some(pid) => if previous == Some(pid) {
            (previous, None)
        } else {
            (
                Some(pid),
                Some(
                    match previous {
                        Some(old) => name + " PID changed: "@ + decimal(old as nat) + " -> "@
                            + decimal(pid as nat),
                        None => name + " found: pid="@ + decimal(pid as nat),
                    },
                ),
            )
        },
    }
}

/// Follows the process across lookups: reports when it is not found, when
/// it exits, when it is found, and when its pid changes.
pub fn track_process(name: &str, previous: Option<u32>, found: Option<u32>) -> (r: (
    Option<u32>,
    Option<String>,
))
    ensures
        r.0 == tracking(name@, previous, found).0,
        match tracking(name@, previous, found).1 {
            Some(m) => r.1 matches Some(s) && s@ == m,
            None => r.1 is None,
        },
{
    let mut msg: Vec<char> = Vec::new();
    crate::text::push_str(&mut msg, name);
    match found {
        None => {
            if previous.is_some() {
                crate::text::push_str(&mut msg, " process exited");
            } else {
                crate::text::push_str(&mut msg, " process not found");
            }
            (None, Some(crate::text::string_of(&msg)))
        },
        Some(pid) => {
            let same = match previous {
                Some(old) => old == pid,
                None => false,
            };
            if same {
                return (previous, None);
            }
            match previous {
                Some(old) => {
                    crate::text::push_str(&mut msg, " PID changed: ");
                    push_decimal(&mut msg, old as u64);
                    crate::text::push_str(&mut msg, " -> ");
                    push_decimal(&mut msg, pid as u64);
                },
                None => {
                    crate::text::push_str(&mut msg, " found: pid=");
                    push_decimal(&mut msg, pid as u64);
                },
            }
            (Some(pid), Some(crate::text::string_of(&msg)))
        },
    }
}

} // verus!

verus! {

proof fn lemma_field_total_sum(a: Seq<Seq<char>>, b: Seq<Seq<char>>, key: Seq<char>)
    ensures
        field_total(a + b, key) == field_total(a, key) + field_total(b, key),
    decreases b.len(),
{
    if b.len() == 0 {
        assert(a + b =~= a);
    } else {
        assert((a + b).drop_last() =~= a + b.drop_last());
        assert((a + b).last() == b.last());
        lemma_field_total_sum(a, b.drop_last(), key);
    }
}

/// Totals add up over listings: the totals of one listing followed by
/// another (the first ending with a line break) are the sums of their
/// totals.
pub proof fn lemma_totals_add_up(a: Seq<char>, b: Seq<char>, k: int)
    requires
        a.len() == 0 || a.last() == '\n',
    ensures
        smaps_total(a + b, k) == smaps_total(a, k) + smaps_total(b, k),
{
    crate::text::lemma_lines_append(a, b);
    lemma_field_total_sum(lines(a), lines(b), smaps_key(k));
}

} // verus!

verus! {

/// The followed process is the one with the smallest PID among the entries
/// whose `comm` is the name: the chosen PID comes from a matching entry and
/// no matching entry has a smaller one; nothing is chosen exactly when no
/// entry matches.
pub proof fn lemma_smallest_pid_is_chosen(
    entries: Seq<(Seq<char>, Option<Seq<char>>)>,
    name: Seq<char>,
    n: int,
)
    requires
        0 <= n <= entries.len(),
    ensures
        smallest_match(entries, name, n) matches Some(p) ==> (exists|i: int|
            0 <= i < n && #[trigger] process_matches(entries[i], name) == Some(p)),
        smallest_match(entries, name, n) matches Some(p) ==> (forall|i: int|
            0 <= i < n && #[trigger] process_matches(entries[i], name) is Some ==> p
                <= process_matches(entries[i], name)->0),
        smallest_match(entries, name, n) is None <==> (forall|i: int|
            0 <= i < n ==> #[trigger] process_matches(entries[i], name) is None),
    decreases n,
{
    if n > 0 {
        lemma_smallest_pid_is_chosen(entries, name, n - 1);
        let prev = smallest_match(entries, name, n - 1);
        match process_matches(entries[n - 1], name) {
            Some(pid) => {
                match prev {
                    Some(cur) => {
                        if cur <= pid {
                            let i = choose|i: int|
                                0 <= i < n - 1 && #[trigger] process_matches(entries[i], name)
                                    == Some(cur);
                            assert(process_matches(entries[i], name) == Some(cur));
                        }
                    },
                    None => {},
                }
                assert(process_matches(entries[n - 1], name) == Some(pid));
            },
            None => {
                if prev is Some {
                    let cur = prev->0;
                    let i = choose|i: int|
                        0 <= i < n - 1 && #[trigger] process_matches(entries[i], name) == Some(cur);
                    assert(process_matches(entries[i], name) == Some(cur));
                }
            },
        }
    }
}

} // verus!
