//! The command line: what each command carries, and the decisions the
//! commands make before any connection is opened.
use vstd::prelude::*;
use crate::cli::config::{DropwireConfig, relay_of};
use crate::text::{
    chars_of, decimal, decimal_chars, lemma_decimal, lemma_split_on_concat, lemma_split_on_no_sep,
    lower_eq, lower_eq_str, split_on, string_from_chars,
};
use crate::types::code_phrase_valid;

use crate::wordlist::{all_words, get_wordlist, lemma_no_word_has_dash, lemma_wordlist_nonempty};

pub mod config;

verus! {

/// A parsed command line.
pub struct Cli {
    pub command: Commands,
}

/// The commands, with their arguments (paths as text).
pub enum Commands {
    /// Send a file or directory; `streams` parallel streams, the relay named
    /// on the command line if any, and LAN discovery unless `no_lan`.
    Send { file: String, code: Option<String>, streams: usize, relay: Option<String>, no_lan: bool },
    /// Receive into `out` (a default download folder when absent).
    Receive { code: String, out: Option<String>, relay: Option<String>, no_lan: bool },
    /// Run a relay on the two bind addresses.
    Relay { bind: String, ws_bind: String },
    /// Show or change the settings.
    Config { action: String, key: Option<String>, value: Option<String> },
}

/// The relay a transfer uses: the one on the command line, else the
/// configured or default one.
pub fn resolve_relay(flag: Option<String>, config: &DropwireConfig) -> (r: String)
    ensures
        r@ == match flag {
            Some(f) => f@,
            None => relay_of(*config),
        },
{
    match flag {
        Some(f) => f,
        None => config.get_relay(),
    }
}

/// `s` with every occurrence of the non-empty `pat` replaced by `rep`,
/// scanning left to right without overlaps, as `str::replace` does.
pub open spec fn replace_all(s: Seq<char>, pat: Seq<char>, rep: Seq<char>) -> Seq<char>
    decreases s.len(),
{
    if s.len() == 0 {
        Seq::empty()
    } else if pat.len() > 0 && pat.is_prefix_of(s) {
        rep + replace_all(s.skip(pat.len() as int), pat, rep)
    } else {
        seq![s[0]] + replace_all(s.drop_first(), pat, rep)
    }
}

/// Whether `pat` occurs in `s` at `i`.
fn occurs_at(s: &Vec<char>, i: usize, pat: &Vec<char>) -> (b: bool)
    requires
        i <= s@.len(),
    ensures
        b == pat@.is_prefix_of(s@.skip(i as int)),
{
    let n = s.len();
    if pat.len() > n - i {
        return false;
    }
    let mut k: usize = 0;
    while k < pat.len()
        invariant
            k <= pat@.len(),
            n == s@.len(),
            i + pat@.len() <= n,
            forall|j: int| 0 <= j < k ==> pat@[j] == s@[i + j],
        decreases pat@.len() - k,
    {
        if pat[k] != s[i + k] {
            proof {
                assert(s@.skip(i as int).subrange(0, pat@.len() as int)[k as int] == s@[i + k]);
            }
            return false;
        }
        k = k + 1;
    }
    assert(pat@ =~= s@.skip(i as int).subrange(0, pat@.len() as int));
    true
}

/// Replaces every occurrence of `pat` (not empty) in `s` by `rep`.
pub fn replace_chars(s: &Vec<char>, pat: &Vec<char>, rep: &Vec<char>) -> (r: Vec<char>)
    requires
        pat@.len() > 0,
    ensures
        r@ == replace_all(s@, pat@, rep@),
{
    let mut out: Vec<char> = Vec::new();
    let mut i: usize = 0;
    assert(s@.skip(0) =~= s@);
    assert(out@ + replace_all(s@, pat@, rep@) =~= replace_all(s@, pat@, rep@));
    while i < s.len()
        invariant
            i <= s@.len(),
            pat@.len() > 0,
            out@ + replace_all(s@.skip(i as int), pat@, rep@) == replace_all(s@, pat@, rep@),
        decreases s@.len() - i,
    {
        let ghost rest = s@.skip(i as int);
        if occurs_at(s, i, pat) {
            let ghost before = out@;
            let mut k: usize = 0;
            while k < rep.len()
                invariant
                    k <= rep@.len(),
                    out@ == before + rep@.take(k as int),
                decreases rep@.len() - k,
            {
                out.push(rep[k]);
                proof {
                    assert(rep@.take(k + 1) =~= rep@.take(k as int).push(rep@[k as int]));
                    assert(out@ =~= before + rep@.take(k + 1));
                }
                k = k + 1;
            }
            proof {
                assert(rep@.take(rep@.len() as int) =~= rep@);
                assert(rest.skip(pat@.len() as int) =~= s@.skip(i + pat@.len()));
                assert(out@ + replace_all(s@.skip(i + pat@.len()), pat@, rep@) =~= before + replace_all(rest, pat@, rep@));
            }
            i = i + pat.len();
        } else {
            let ghost before = out@;
            out.push(s[i]);
            proof {
                assert(rest[0] == s@[i as int]);
                assert(rest.drop_first() =~= s@.skip(i + 1));
                assert(out@ + replace_all(s@.skip(i + 1), pat@, rep@) =~= before + replace_all(rest, pat@, rep@));
            }
            i = i + 1;
        }
    }
    proof {
        assert(s@.skip(i as int) =~= Seq::<char>::empty());
        assert(out@ + Seq::<char>::empty() =~= out@);
    }
    out
}

/// The TCP relay that goes with a signaling relay URL: the URL without
/// `ws://`, with port 9010 turned into 9009.
pub open spec fn tcp_relay_of(url: Seq<char>) -> Seq<char> {
    replace_all(replace_all(url, "ws://"@, Seq::empty()), "9010"@, "9009"@)
}

/// The TCP relay address for a signaling relay URL.
pub fn tcp_relay_address(url: &str) -> (r: String)
    ensures
        r@ == tcp_relay_of(url@),
{
    proof {
        reveal_strlit("ws://");
        reveal_strlit("9010");
    }
    let u = chars_of(url);
    let scheme = chars_of("ws://");
    let none: Vec<char> = Vec::new();
    let a = replace_chars(&u, &scheme, &none);
    let from = chars_of("9010");
    let to = chars_of("9009");
    let b = replace_chars(&a, &from, &to);
    assert(none@ =~= Seq::<char>::empty());
    string_from_chars(b.as_slice())
}

/// What `config` was asked to do.
pub enum ConfigAction {
    /// List the settings.
    Show,
    /// Set `key` to `value`.
    Assign { key: String, value: String },
    /// `set` without both a key and a value.
    MissingArgs,
    /// Neither `show` nor `set`.
    Unknown,
}

/// Reads a `config` command: `show` or `set` in any case; `set` needs both a
/// key and a value.
pub fn config_action(action: &str, key: Option<String>, value: Option<String>) -> (r: ConfigAction)
    ensures
        lower_eq(action@, "show"@) ==> r is Show,
        !lower_eq(action@, "show"@) && lower_eq(action@, "set"@) ==> match (key, value) {
            (Some(k), Some(v)) => (r matches ConfigAction::Assign { key, value } && key@ == k@ && value@ == v@),
            _ => r is MissingArgs,
        },
        !lower_eq(action@, "show"@) && !lower_eq(action@, "set"@) ==> r is Unknown,
{
    let a = chars_of(action);
    if lower_eq_str(&a, "show") {
        ConfigAction::Show
    } else if lower_eq_str(&a, "set") {
        match (key, value) {
            (Some(k), Some(v)) => ConfigAction::Assign { key: k, value: v },
            _ => ConfigAction::MissingArgs,
        }
    } else {
        ConfigAction::Unknown
    }
}

/// The code phrase made of the number `n` and words `i` and `j` of the list.
pub open spec fn code_text(n: nat, i: int, j: int) -> Seq<char> {
    decimal(n) + seq!['-'] + all_words()[i] + seq!['-'] + all_words()[j]
}

/// A number in `lo..hi`, drawn by `rand::Rng::gen_range` from the thread's
/// generator. Which number comes out is left unsaid.
#[verifier::external_body]
fn random_in(lo: usize, hi: usize) -> (r: usize)
    requires
        lo < hi,
    ensures
        lo <= r < hi,
{
    rand::Rng::gen_range(&mut rand::thread_rng(), lo..hi)
}

fn push_all(v: &mut Vec<char>, w: &Vec<char>)
    ensures
        final(v)@ == old(v)@ + w@,
{
    let mut k: usize = 0;
    while k < w.len()
        invariant
            k <= w@.len(),
            v@ == old(v)@ + w@.take(k as int),
        decreases w@.len() - k,
    {
        v.push(w[k]);
        proof {
            assert(w@.take(k + 1) =~= w@.take(k as int).push(w@[k as int]));
            assert(v@ =~= old(v)@ + w@.take(k + 1));
        }
        k = k + 1;
    }
    assert(w@.take(w@.len() as int) =~= w@);
}

/// The code phrase `<n>-<word i>-<word j>`, the words taken from `list`, the
/// list that `get_wordlist` gives.
pub fn code_from_draws(list: &Vec<Vec<char>>, n: u16, i: usize, j: usize) -> (s: String)
    requires
        list@.map_values(|x: Vec<char>| x@) == all_words(),
        i < list@.len(),
        j < list@.len(),
    ensures
        s@ == code_text(n as nat, i as int, j as int),
{
    let mut v = decimal_chars(n as u64);
    v.push('-');
    push_all(&mut v, &list[i]);
    v.push('-');
    push_all(&mut v, &list[j]);
    proof {
        assert(all_words()[i as int] == list@[i as int]@);
        assert(all_words()[j as int] == list@[j as int]@);
    }
    string_from_chars(v.as_slice())
}

/// A fresh code phrase: a number from 1 to 999 and two words of the list,
/// drawn at random.
pub fn generate_code() -> (s: String)
    ensures
        exists|n: nat, i: int, j: int|
            1 <= n <= 999 && 0 <= i < all_words().len() && 0 <= j < all_words().len() && s@ == #[trigger] code_text(n, i, j),
        code_phrase_valid(s@),
{
    let list = get_wordlist();
    proof {
        lemma_wordlist_nonempty();
        assert(list@.len() == all_words().len());
    }
    let n = random_in(1, 1000);
    let i = random_in(0, list.len());
    let j = random_in(0, list.len());
    let s = code_from_draws(&list, n as u16, i, j);
    assert(s@ == code_text((n as u16) as nat, i as int, j as int));
    proof {
        lemma_code_text_valid((n as u16) as nat, i as int, j as int);
    }
    s
}


/// Decimal text of a positive number does not start with `0`.
proof fn lemma_decimal_no_leading_zero(n: nat)
    requires
        n >= 1,
    ensures
        decimal(n)[0] != '0',
    decreases n,
{
    if n >= 10 {
        lemma_decimal_no_leading_zero(n / 10);
        lemma_decimal(n / 10);
        assert(decimal(n)[0] == decimal(n / 10)[0]);
    } else {
        assert((crate::text::digit_char(n) as nat) == n + ('0' as nat));
    }
}

/// A drawn code phrase is one that `CodePhrase::new` accepts (no word of the
/// list holds the `-` that separates the parts).
pub proof fn lemma_code_text_valid(n: nat, i: int, j: int)
    requires
        1 <= n <= 999,
        0 <= i < all_words().len(),
        0 <= j < all_words().len(),
    ensures
        code_phrase_valid(code_text(n, i, j)),
{
    lemma_no_word_has_dash();
    let d = decimal(n);
    let w1 = all_words()[i];
    let w2 = all_words()[j];
    lemma_decimal(n);
    lemma_decimal_no_leading_zero(n);
    assert(!d.contains('-')) by {
        if d.contains('-') {
            let t = choose|t: int| 0 <= t < d.len() && d[t] == '-';
            assert(crate::text::is_digit(d[t]));
        }
    }
    lemma_split_on_no_sep(d, '-');
    lemma_split_on_no_sep(w1, '-');
    lemma_split_on_no_sep(w2, '-');
    lemma_split_on_concat(w1, '-', w2);
    lemma_split_on_concat(d, '-', w1.push('-') + w2);
    assert(code_text(n, i, j) =~= d.push('-') + (w1.push('-') + w2));
    let parts = split_on(code_text(n, i, j), '-');
    assert(parts =~= seq![d, w1, w2]);
    assert(all_words().contains(w1));
    assert(all_words().contains(w2));
}
} // verus!
