//! How the simulation server is exposed: its network settings, the address
//! shown to players, the start-up banner, the crash report and the frame
//! time samples.
use vstd::prelude::*;
use crate::text::{after_last, chars_after_last, chars_of, decimal, extend_chars, string_of, trim, trimmed_chars};

verus! {

broadcast use vstd::string::group_string_axioms;

/// Where the simulation is exposed and how clients and server keep in step.
#[derive(Clone)]
pub struct NetworkConfig {
    pub mode: String,
    pub serve_host_port: String,
    pub bind_sim: String,
    pub batch_msg_bytes: usize,
    pub ok_turn_dist: usize,
    pub skip_ratio: usize,
}

/// The modes in which the server can run.
pub open spec fn is_known_mode(mode: Seq<char>) -> bool {
    mode == "local"@ || mode == "lan"@ || mode == "internet"@
}

/// The host that players are told to open for a mode.
pub open spec fn host_for_mode(mode: Seq<char>) -> Seq<char> {
    if mode == "local"@ {
        "localhost"@
    } else if mode == "lan"@ {
        "<your LAN IP>"@
    } else {
        "<your public IP>"@
    }
}

/// Whether two string slices hold the same characters.
pub fn str_eq(a: &str, b: &str) -> (r: bool)
    ensures
        r == (a@ == b@),
{
    let x = chars_of(a);
    let y = chars_of(b);
    if x.len() != y.len() {
        return false;
    }
    let mut i: usize = 0;
    while i < x.len()
        invariant
            x@ == a@,
            y@ == b@,
            x@.len() == y@.len(),
            i <= x@.len(),
            forall|j: int| 0 <= j < i ==> x@[j] == y@[j],
        decreases x.len() - i,
    {
        if x[i] != y[i] {
            assert(x@[i as int] != y@[i as int]);
            return false;
        }
        i = i + 1;
    }
    assert(x@ =~= y@);
    true
}

/// The host shown to players for a mode; only the three known modes are
/// accepted.
pub fn display_host_for_mode(mode: &str) -> (host: &'static str)
    requires
        is_known_mode(mode@),
    ensures
        host@ == host_for_mode(mode@),
{
    if str_eq(mode, "local") {
        "localhost"
    } else if str_eq(mode, "lan") {
        "<your LAN IP>"
    } else {
        "<your public IP>"
    }
}

/// The part of `s` after its last `':'`, or all of `s` when it has none.
pub open spec fn after_last_colon(s: Seq<char>) -> Seq<char> {
    after_last(s, ':')
}

/// The address that players open in their browser.
pub open spec fn display_url_spec(mode: Seq<char>, serve_host_port: Seq<char>) -> Seq<char> {
    "http://"@ + host_for_mode(mode) + ":"@ + after_last_colon(serve_host_port)
}

/// The address that players open in their browser: the mode's host and the
/// port of the address that the browser UI is served from.
pub fn display_url(network_config: &NetworkConfig) -> (url: String)
    requires
        is_known_mode(network_config.mode@),
    ensures
        url@ == display_url_spec(network_config.mode@, network_config.serve_host_port@),
{
    let host = display_host_for_mode(network_config.mode.as_str());
    let port = chars_after_last(&chars_of(network_config.serve_host_port.as_str()), ':');
    let mut url = String::from_str("http://");
    url.append(host);
    url.append(":");
    url.append(string_of(&port).as_str());
    url
}

/// `n` spaces.
pub open spec fn spaces(n: nat) -> Seq<char> {
    Seq::new(n, |i: int| ' ')
}

/// `s` centred in a field of `width` characters, the odd space going to the
/// right; longer text is left as it is.
pub open spec fn centered(s: Seq<char>, width: nat) -> Seq<char> {
    if s.len() >= width {
        s
    } else {
        let pad = (width - s.len()) as nat;
        spaces(pad / 2) + s + spaces((pad - pad / 2) as nat)
    }
}

/// Appends `n` spaces.
fn push_spaces(v: &mut Vec<char>, n: usize)
    ensures
        final(v)@ == old(v)@ + spaces(n as nat),
{
    let mut i: usize = 0;
    while i < n
        invariant
            i <= n,
            v@ == old(v)@ + spaces(i as nat),
        decreases n - i,
    {
        v.push(' ');
        i = i + 1;
        assert(v@ =~= old(v)@ + spaces(i as nat));
    }
}

/// `prefix`, then `s` centred in `width` characters, then `suffix`.
fn centered_line(prefix: &str, s: &Vec<char>, width: usize, suffix: &str) -> (line: String)
    ensures
        line@ == prefix@ + centered(s@, width as nat) + suffix@,
{
    let mut v = chars_of(prefix);
    if s.len() >= width {
        extend_chars(&mut v, s);
    } else {
        let pad = width - s.len();
        push_spaces(&mut v, pad / 2);
        extend_chars(&mut v, s);
        push_spaces(&mut v, pad - pad / 2);
    }
    let suffix_chars = chars_of(suffix);
    extend_chars(&mut v, &suffix_chars);
    assert(v@ =~= prefix@ + centered(s@, width as nat) + suffix@);
    string_of(&v)
}

/// The width of the field in which the banner centres its text.
pub const BANNER_WIDTH: usize = 41;

/// The lines of the start-up banner, in order.
pub open spec fn start_message_spec(version: Seq<char>, url: Seq<char>) -> Seq<Seq<char>> {
    seq![
        "  "@ + centered("Citybound "@ + trim(version), 41) + "  "@,
        Seq::empty(),
        "  "@ + centered("This is the simulation server."@, 41) + "  "@,
        "  "@ + centered("To connect and start playing, please open"@, 41) + "  "@,
        "  "@ + centered("this address in Chrome/Firefox/Safari:"@, 41) + "  "@,
        "╭───────────────────────────────────────────╮"@,
        "│ "@ + centered(url, 41) + " │"@,
        "╰───────────────────────────────────────────╯"@,
    ]
}

/// The lines that the server prints when it starts: its version and the
/// address to open, centred in a box.
pub fn start_message_lines(version: &str, network_config: &NetworkConfig) -> (lines: Vec<String>)
    requires
        is_known_mode(network_config.mode@),
    ensures
        lines@.len() == 8,
        forall|i: int|
            0 <= i < 8 ==> #[trigger] lines@[i]@ == start_message_spec(
                version@,
                display_url_spec(network_config.mode@, network_config.serve_host_port@),
            )[i],
{
    let url = display_url(network_config);
    let mut title = chars_of("Citybound ");
    let trimmed = trimmed_chars(version);
    extend_chars(&mut title, &trimmed);
    let mut lines: Vec<String> = Vec::new();
    lines.push(centered_line("  ", &title, BANNER_WIDTH, "  "));
    lines.push(String::new());
    lines.push(centered_line("  ", &chars_of("This is the simulation server."), BANNER_WIDTH, "  "));
    lines.push(
        centered_line("  ", &chars_of("To connect and start playing, please open"), BANNER_WIDTH, "  "),
    );
    lines.push(
        centered_line("  ", &chars_of("this address in Chrome/Firefox/Safari:"), BANNER_WIDTH, "  "),
    );
    lines.push(String::from_str("╭───────────────────────────────────────────╮"));
    lines.push(centered_line("│ ", &chars_of(url.as_str()), BANNER_WIDTH, " │"));
    lines.push(String::from_str("╰───────────────────────────────────────────╯"));
    lines
}

/// The number of frame time samples that are kept.
pub const FRAME_SAMPLES: usize = 10;

/// The samples after recording one more: the oldest is dropped once more
/// than `FRAME_SAMPLES` are held.
pub open spec fn recent_samples<T>(samples: Seq<T>, sample: T) -> Seq<T> {
    if samples.len() + 1 > FRAME_SAMPLES {
        samples.push(sample).drop_first()
    } else {
        samples.push(sample)
    }
}

/// The samples held after recording each of `xs` in turn, starting from `start`.
pub open spec fn samples_after<T>(start: Seq<T>, xs: Seq<T>) -> Seq<T>
    decreases xs.len(),
{
    if xs.len() == 0 {
        start
    } else {
        recent_samples(samples_after(start, xs.drop_last()), xs.last())
    }
}

/// Recording a run of samples from none keeps the latest `FRAME_SAMPLES` of
/// them (all of them while there are fewer), in the order they came.
pub proof fn law_samples_keep_the_latest<T>(xs: Seq<T>)
    ensures
        samples_after(Seq::<T>::empty(), xs) == xs.skip(
            if xs.len() > FRAME_SAMPLES { xs.len() - FRAME_SAMPLES } else { 0 },
        ),
        samples_after(Seq::<T>::empty(), xs).len() <= FRAME_SAMPLES,
    decreases xs.len(),
{
    if xs.len() > 0 {
        let d = xs.drop_last();
        law_samples_keep_the_latest(d);
        let ys = samples_after(Seq::<T>::empty(), d);
        if d.len() >= FRAME_SAMPLES {
            assert(ys.push(xs.last()).drop_first() =~= xs.skip(xs.len() - FRAME_SAMPLES));
        } else {
            assert(ys =~= d);
            assert(ys.push(xs.last()) =~= xs);
            assert(xs.skip(0) =~= xs);
        }
    } else {
        assert(xs.skip(0) =~= xs);
    }
}

/// Records a sample, keeping only the most recent `FRAME_SAMPLES`.
pub fn push_recent_sample<T>(samples: &mut Vec<T>, sample: T)
    ensures
        final(samples)@ == recent_samples(old(samples)@, sample),
{
    samples.push(sample);
    if samples.len() > FRAME_SAMPLES {
        samples.remove(0);
    }
}

/// The first line of a crash report.
pub open spec fn crash_title() -> Seq<char> {
    "SIMULATION BROKE :("@
}

/// Where to report a crash.
pub open spec fn report_guide() -> Seq<char> {
    "HOW TO REPORT BUGS:\nhttps://github.com/citybound/citybound/blob/master/CONTRIBUTING.md#reporting-bugs"@
}

/// What a panic says happened: the payload if it is a `String`, else if it is
/// a `&str`, else a stand-in.
pub fn panic_message(string_payload: Option<&str>, str_payload: Option<&str>) -> (m: String)
    ensures
        m@ == match string_payload {
            Some(s) => s@,
            None => match str_payload {
                Some(s) => s@,
                None => "Weird error type"@,
            },
        },
{
    match string_payload {
        Some(s) => String::from_str(s),
        None => match str_payload {
            Some(s) => String::from_str(s),
            None => String::from_str("Weird error type"),
        },
    }
}

/// Where a panic happened, as `"at <file>, line <line>"`.
pub fn panic_location(file: Option<&str>, line: Option<u32>) -> (l: String)
    ensures
        l@ == "at "@ + match file {
            Some(f) => f@,
            None => "unknown"@,
        } + ", line "@ + decimal(
            match line {
                Some(n) => n as nat,
                None => 0,
            },
        ),
{
    let mut l = String::from_str("at ");
    match file {
        Some(f) => l.append(f),
        None => l.append("unknown"),
    }
    l.append(", line ");
    let n: usize = match line {
        Some(n) => n as usize,
        None => 0,
    };
    let digits = crate::text::usize_to_decimal(n);
    l.append(digits.as_str());
    l
}

/// The body of a crash report: what happened, where, and the backtrace text.
pub open spec fn error_body_spec(message: Seq<char>, location: Seq<char>, backtrace: Seq<char>) -> Seq<
    char,
> {
    "WHAT HAPPENED:\n"@ + message + "\n\nWHERE IT HAPPENED:\n"@ + location
        + "\n\nWHERE EXACTLY:\n"@ + backtrace
}

pub fn error_body(message: &str, location: &str, backtrace: &str) -> (b: String)
    ensures
        b@ == error_body_spec(message@, location@, backtrace@),
{
    let mut b = String::from_str("WHAT HAPPENED:\n");
    b.append(message);
    b.append("\n\nWHERE IT HAPPENED:\n");
    b.append(location);
    b.append("\n\nWHERE EXACTLY:\n");
    b.append(backtrace);
    b
}

/// What is printed on a crash; `saved_at` is the written form of the path of
/// the report file.
pub fn error_console_text(body: &str, saved_at: &str) -> (t: String)
    ensures
        t@ == crash_title() + "\n\n"@ + body@ + "\n\nERROR ALSO SAVED AT "@ + saved_at@
            + "\nTHIS CRASH PROBABLY CORRUPTED YOUR SAVEGAME :("@,
{
    let mut t = String::from_str("SIMULATION BROKE :(");
    t.append("\n\n");
    t.append(body);
    t.append("\n\nERROR ALSO SAVED AT ");
    t.append(saved_at);
    t.append("\nTHIS CRASH PROBABLY CORRUPTED YOUR SAVEGAME :(");
    t
}

/// What is written to the report file: title, reporting guide and body, with
/// every line break written as `"\r\n"`.
pub fn error_file_content(body: &str) -> (c: String)
    ensures
        c@ == crate::text::replace_all(
            crash_title() + "\n\n"@ + report_guide() + "\n\n"@ + body@,
            "\n"@,
            "\r\n"@,
        ),
{
    let mut v = chars_of("SIMULATION BROKE :(");
    extend_chars(&mut v, &chars_of("\n\n"));
    extend_chars(
        &mut v,
        &chars_of(
            "HOW TO REPORT BUGS:\nhttps://github.com/citybound/citybound/blob/master/CONTRIBUTING.md#reporting-bugs",
        ),
    );
    extend_chars(&mut v, &chars_of("\n\n"));
    extend_chars(&mut v, &chars_of(body));
    let r = crate::text::replace_chars(&v, &chars_of("\n"), &chars_of("\r\n"));
    string_of(&r)
}

} // verus!
