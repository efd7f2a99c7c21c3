use vstd::prelude::*;

verus! {

/// How an appender turns a log record into text.
#[derive(Debug, PartialEq, Eq)]
pub enum Encoder {
    /// The logging framework's default layout.
    Default,
    /// A layout given as a pattern of the logging framework.
    Pattern(String),
}

/// The decimal digit for `d`.
pub open spec fn digit_char(d: nat) -> char {
    if d == 0 { '0' }
    else if d == 1 { '1' }
    else if d == 2 { '2' }
    else if d == 3 { '3' }
    else if d == 4 { '4' }
    else if d == 5 { '5' }
    else if d == 6 { '6' }
    else if d == 7 { '7' }
    else if d == 8 { '8' }
    else { '9' }
}

/// `n` written in decimal, without leading zeros.
pub open spec fn decimal(n: nat) -> Seq<char>
    decreases n,
{
    if n < 10 {
        seq![digit_char(n)]
    } else {
        decimal(n / 10).push(digit_char(n % 10))
    }
}

/// The pattern of a JSON object with the fixed keys `id`, `level`, `time`,
/// `thread`, `module`, `file`, `line` and `msg`, where `id` is `unique_id`.
pub open spec fn json_pattern(unique_id: nat) -> Seq<char> {
    "{{\"id\":\""@ + decimal(unique_id)
        + "\",\"level\":\"{l}\",\"time\":\"{d}\",\"thread\":\"{T}\",\"module\":\"{M}\",\"file\":\"{f}\",\"line\":\"{L}\",\"msg\":\"{m}\"}}"@
}

/// The human-readable pattern: level, time, optionally the thread, then the
/// module and the source file between the markers that the worker shortens.
pub open spec fn line_pattern(show_thread_name: bool) -> Seq<char> {
    if show_thread_name {
        "{l} {d(%H:%M:%S.%f)} {T} [{M} #FS#{f}#FE#:{L}] {m}{n}"@
    } else {
        "{l} {d(%H:%M:%S.%f)} [{M} #FS#{f}#FE#:{L}] {m}{n}"@
    }
}

proof fn lemma_decimal_len(n: nat)
    ensures
        decimal(n).len() >= 1,
        n >= 10 ==> decimal(n).len() >= 2,
    decreases n,
{
    if n >= 10 {
        lemma_decimal_len(n / 10);
    }
}

proof fn lemma_digit_char_injective(a: nat, b: nat)
    requires
        a < 10,
        b < 10,
        digit_char(a) == digit_char(b),
    ensures
        a == b,
{
}

/// Different numbers are written differently.
pub proof fn lemma_decimal_injective(a: nat, b: nat)
    requires
        decimal(a) == decimal(b),
    ensures
        a == b,
    decreases a + b,
{
    lemma_decimal_len(a);
    lemma_decimal_len(b);
    if a < 10 && b < 10 {
        assert(decimal(a)[0] == digit_char(a));
        assert(decimal(b)[0] == digit_char(b));
        lemma_digit_char_injective(a, b);
    } else if a >= 10 && b >= 10 {
        let da = decimal(a);
        let db = decimal(b);
        assert(da.last() == digit_char(a % 10));
        assert(db.last() == digit_char(b % 10));
        lemma_digit_char_injective(a % 10, b % 10);
        assert(decimal(a / 10) =~= da.drop_last());
        assert(decimal(b / 10) =~= db.drop_last());
        lemma_decimal_injective(a / 10, b / 10);
    }
}

/// A web-socket appender marks each of its messages with its own id: the
/// JSON layouts of two appenders with different ids differ, and the layout
/// of one appender is the same for every message it encodes.
pub proof fn lemma_json_pattern_identifies(a: nat, b: nat)
    ensures
        json_pattern(a) == json_pattern(b) <==> a == b,
{
    if json_pattern(a) == json_pattern(b) {
        let pre = "{{\"id\":\""@;
        let post = "\",\"level\":\"{l}\",\"time\":\"{d}\",\"thread\":\"{T}\",\"module\":\"{M}\",\"file\":\"{f}\",\"line\":\"{L}\",\"msg\":\"{m}\"}}"@;
        let ja = json_pattern(a);
        let da = decimal(a);
        let db = decimal(b);
        assert(ja.len() == pre.len() + da.len() + post.len());
        assert(json_pattern(b).len() == pre.len() + db.len() + post.len());
        assert(da =~= ja.subrange(pre.len() as int, (pre.len() + da.len()) as int));
        assert(db =~= ja.subrange(pre.len() as int, (pre.len() + db.len()) as int));
        lemma_decimal_injective(a, b);
    }
}

fn digit_str(d: u64) -> (r: &'static str)
    requires
        d < 10,
    ensures
        r@ == seq![digit_char(d as nat)],
{
    proof {
        reveal_strlit("0");
        reveal_strlit("1");
        reveal_strlit("2");
        reveal_strlit("3");
        reveal_strlit("4");
        reveal_strlit("5");
        reveal_strlit("6");
        reveal_strlit("7");
        reveal_strlit("8");
        reveal_strlit("9");
    }
    if d == 0 { "0" }
    else if d == 1 { "1" }
    else if d == 2 { "2" }
    else if d == 3 { "3" }
    else if d == 4 { "4" }
    else if d == 5 { "5" }
    else if d == 6 { "6" }
    else if d == 7 { "7" }
    else if d == 8 { "8" }
    else { "9" }
}

fn push_decimal(out: &mut String, n: u64)
    ensures
        final(out)@ == old(out)@ + decimal(n as nat),
    decreases n,
{
    if n >= 10 {
        push_decimal(out, n / 10);
    }
    out.append(digit_str(n % 10));
    proof {
        if n >= 10 {
            assert(decimal(n as nat) == decimal((n / 10) as nat).push(digit_char((n % 10) as nat)));
        }
    }
    assert(final(out)@ =~= old(out)@ + decimal(n as nat)) by {
        if n >= 10 {
            assert(decimal((n / 10) as nat) + seq![digit_char((n % 10) as nat)] =~= decimal(n as nat));
        }
    }
}

/// The JSON pattern used by web-socket appenders, carrying `unique_id` so that
/// a server can tell the messages of one appender from those of another.
pub fn make_json_pattern(unique_id: u64) -> (r: String)
    ensures
        r@ == json_pattern(unique_id as nat),
{
    let mut s = String::new();
    s.append("{{\"id\":\"");
    push_decimal(&mut s, unique_id);
    s.append(
        "\",\"level\":\"{l}\",\"time\":\"{d}\",\"thread\":\"{T}\",\"module\":\"{M}\",\"file\":\"{f}\",\"line\":\"{L}\",\"msg\":\"{m}\"}}",
    );
    s
}

/// The pattern of the console, file and server appenders that the crate's
/// initialisers set up.
pub fn make_pattern(show_thread_name: bool) -> (r: String)
    ensures
        r@ == line_pattern(show_thread_name),
{
    if show_thread_name {
        "{l} {d(%H:%M:%S.%f)} {T} [{M} #FS#{f}#FE#:{L}] {m}{n}".to_owned()
    } else {
        "{l} {d(%H:%M:%S.%f)} [{M} #FS#{f}#FE#:{L}] {m}{n}".to_owned()
    }
}

} // verus!
