//! Proxies: the list of them, and the turn in which they are used.

use vstd::arithmetic::div_mod::{lemma_fundamental_div_mod, lemma_fundamental_div_mod_converse};
use vstd::prelude::*;
use vstd::string::*;

use crate::text::{
    is_white_space, joined, lemma_joined_pieces, lemma_one_piece, lemma_pieces, lemma_pieces_of_both,
    lemma_trimmed_middle, lemma_trimmed_text, occurs_at, split, split_at_each, starts_with, texts, trim,
    trimmed,
};

verus! {

/// Whether an address names the protocol that it is reached by.
pub open spec fn has_scheme(address: Seq<char>) -> bool {
    occurs_at(address, "http://"@, 0) || occurs_at(address, "https://"@, 0)
}

/// The address, with a protocol.
pub open spec fn with_scheme(address: Seq<char>) -> Seq<char> {
    if has_scheme(address) {
        address
    } else {
        "http://"@ + address
    }
}

/// The proxies that the lines name, in order: one on each line that is not blank.
pub open spec fn proxies_on(lines: Seq<Seq<char>>) -> Seq<Seq<char>>
    decreases lines.len(),
{
    if lines.len() == 0 {
        Seq::empty()
    } else {
        let before = proxies_on(lines.drop_last());
        let address = trimmed(lines.last());
        if address.len() == 0 {
            before
        } else {
            before.push(with_scheme(address))
        }
    }
}

/// The proxies that a proxy file names.
pub open spec fn proxies_in(content: Seq<char>) -> Seq<Seq<char>> {
    proxies_on(split_at_each(content, '\n'))
}

/// The address, with a protocol.
fn add_scheme(address: String) -> (r: String)
    ensures
        r@ == with_scheme(address@),
{
    if starts_with(address.as_str(), "http://") || starts_with(address.as_str(), "https://") {
        address
    } else {
        let mut out = "http://".to_string();
        out.append(address.as_str());
        out
    }
}

/// The proxies that the content of a proxy file names: one on each line that is not blank, with
/// `http://` before one that names no protocol.
pub fn parse_proxies(content: &str) -> (r: Vec<String>)
    ensures
        texts(r@) == proxies_in(content@),
{
    let lines = split(content, '\n');
    let mut out: Vec<String> = Vec::new();
    let n: usize = lines.len();
    let mut i: usize = 0;
    assert(texts(out@) =~= Seq::empty());
    while i < n
        invariant
            i <= n == lines@.len(),
            texts(out@) == proxies_on(texts(lines@).take(i as int)),
        decreases n - i,
    {
        let ghost before = out@;
        proof {
            assert(texts(lines@).take(i + 1).drop_last() =~= texts(lines@).take(i as int));
            assert(texts(lines@).take(i + 1).last() == lines@[i as int]@);
        }
        let address = trim(lines[i].as_str());
        if !address.as_str().is_empty() {
            let proxy = add_scheme(address);
            out.push(proxy);
            assert(texts(out@) =~= texts(before).push(proxy@));
        }
        i = i + 1;
    }
    assert(texts(lines@).take(n as int) =~= texts(lines@));
    out
}

proof fn lemma_with_scheme(address: Seq<char>)
    ensures
        has_scheme(with_scheme(address)),
{
    if !has_scheme(address) {
        let s = with_scheme(address);
        assert(s.subrange(0, "http://"@.len() as int) =~= "http://"@);
    }
}

/// What holds of every proxy that is read from a file: reading it again changes nothing of it.
spec fn is_normal(address: Seq<char>) -> bool {
    &&& address.len() > 0
    &&& !is_white_space(address[0])
    &&& !is_white_space(address.last())
    &&& !address.contains('\n')
    &&& has_scheme(address)
}

proof fn lemma_with_scheme_is_normal(line: Seq<char>)
    requires
        !line.contains('\n'),
        trimmed(line).len() > 0,
    ensures
        is_normal(with_scheme(trimmed(line))),
{
    let address = trimmed(line);
    let proxy = with_scheme(address);
    lemma_trimmed_text(line);
    lemma_with_scheme(address);
    assert(!address.contains('\n'));
    if !has_scheme(address) {
        reveal_strlit("http://");
        assert(proxy.last() == address.last());
        if proxy.contains('\n') {
            let i = choose|i: int| 0 <= i < proxy.len() && proxy[i] == '\n';
            assert(i >= 7);
            assert(address[i - 7] == '\n');
        }
    }
}

proof fn lemma_proxies_are_normal(lines: Seq<Seq<char>>)
    requires
        forall|i: int| 0 <= i < lines.len() ==> !(#[trigger] lines[i]).contains('\n'),
    ensures
        forall|i: int| 0 <= i < proxies_on(lines).len() ==> is_normal(#[trigger] proxies_on(lines)[i]),
    decreases lines.len(),
{
    if lines.len() > 0 {
        let front = lines.drop_last();
        assert(forall|i: int| 0 <= i < front.len() ==> front[i] == lines[i]);
        lemma_proxies_are_normal(front);
        let last = lines[lines.len() - 1];
        if trimmed(last).len() > 0 {
            lemma_with_scheme_is_normal(last);
        }
        let before = proxies_on(front);
        assert forall|i: int| 0 <= i < proxies_on(lines).len() implies is_normal(
            #[trigger] proxies_on(lines)[i],
        ) by {
            if i < before.len() {
                assert(is_normal(before[i]));
            }
        }
    }
}

/// Every proxy that is read from a file names the protocol that it is reached by, and has no white
/// space at either end.
pub proof fn law_proxies_have_schemes(content: Seq<char>)
    ensures
        forall|i: int|
            0 <= i < proxies_in(content).len() ==> has_scheme(#[trigger] proxies_in(content)[i]),
        forall|i: int|
            0 <= i < proxies_in(content).len() ==> (#[trigger] proxies_in(content)[i]).len() > 0
                && !is_white_space(proxies_in(content)[i][0]) && !is_white_space(
                proxies_in(content)[i].last(),
            ),
{
    lemma_pieces(content, '\n');
    lemma_proxies_are_normal(split_at_each(content, '\n'));
    assert forall|i: int| 0 <= i < proxies_in(content).len() implies is_normal(
        #[trigger] proxies_in(content)[i],
    ) by {}
}

proof fn lemma_normal_proxies_are_kept(proxies: Seq<Seq<char>>)
    requires
        forall|i: int| 0 <= i < proxies.len() ==> is_normal(#[trigger] proxies[i]),
    ensures
        proxies_on(proxies) == proxies,
    decreases proxies.len(),
{
    if proxies.len() > 0 {
        let front = proxies.drop_last();
        assert(forall|i: int| 0 <= i < front.len() ==> front[i] == proxies[i]);
        lemma_normal_proxies_are_kept(front);
        assert(is_normal(proxies[proxies.len() - 1]));
        assert(trimmed(proxies.last()) == proxies.last());
        assert(front.push(proxies.last()) =~= proxies);
    }
    assert(proxies_on(proxies) =~= proxies);
}

/// Reading the proxies of a file again changes nothing: a file that lists them, one on each line,
/// names the same proxies.
pub proof fn law_proxies_are_read_once_and_for_all(content: Seq<char>)
    ensures
        proxies_in(joined(proxies_in(content), '\n')) == proxies_in(content),
{
    let lines = split_at_each(content, '\n');
    let proxies = proxies_in(content);
    lemma_pieces(content, '\n');
    lemma_proxies_are_normal(lines);
    if proxies.len() == 0 {
        let again = split_at_each(joined(proxies, '\n'), '\n');
        assert(again =~= seq![Seq::empty()]);
        assert(again.drop_last() =~= Seq::empty());
        assert(trimmed(Seq::empty()) =~= Seq::empty());
        assert(proxies_on(again.drop_last()) =~= Seq::empty());
    } else {
        assert forall|i: int| 0 <= i < proxies.len() implies !(#[trigger] proxies[i]).contains(
            '\n',
        ) by {
            assert(is_normal(proxies[i]));
        }
        lemma_joined_pieces(proxies, '\n');
        lemma_normal_proxies_are_kept(proxies);
    }
}

/// The proxies in turn.
pub struct ProxyRotation {
    /// How many proxies there are.
    pub proxies: usize,
    /// How many turns were taken, up to the machine's word size, where the count starts anew.
    pub turn: usize,
}

/// The proxy whose turn it is; none where there are no proxies.
pub open spec fn proxy_at(turn: nat, proxies: nat) -> Option<nat> {
    if proxies == 0 {
        None
    } else {
        Some(turn % proxies)
    }
}

impl ProxyRotation {
    /// The rotation over that many proxies, from the first.
    pub fn new(proxies: usize) -> (r: ProxyRotation)
        ensures
            r.proxies == proxies,
            r.turn == 0,
    {
        ProxyRotation { proxies, turn: 0 }
    }

    /// The index of the proxy to use next; none where requests go out directly.
    pub fn next_fetch_client(&mut self) -> (r: Option<usize>)
        ensures
            match r {
                Some(index) => index < old(self).proxies && proxy_at(
                    old(self).turn as nat,
                    old(self).proxies as nat,
                ) == Some(index as nat),
                None => old(self).proxies == 0,
            },
            r == (if old(self).proxies == 0 {
                None
            } else {
                Some((old(self).turn % old(self).proxies) as usize)
            }),
            final(self).proxies == old(self).proxies,
            final(self).turn == (if old(self).proxies == 0 {
                old(self).turn as int
            } else if old(self).turn == usize::MAX {
                0
            } else {
                old(self).turn + 1
            }),
    {
        if self.proxies == 0 {
            None
        } else {
            let index: usize = self.turn % self.proxies;
            self.turn = self.turn.wrapping_add(1);
            Some(index)
        }
    }
}

/// The proxies take turns: after one comes the one behind it in the list, and after the last
/// comes the first.
pub proof fn law_proxies_take_turns(turn: nat, proxies: nat)
    requires
        proxies > 0,
    ensures
        proxy_at(turn + 1, proxies) == Some(
            if turn % proxies == proxies - 1 {
                0nat
            } else {
                (turn % proxies + 1) as nat
            },
        ),
{
    if turn % proxies == proxies - 1 {
        lemma_turns_ahead(turn, proxies, 0);
    } else {
        lemma_turns_ahead(turn, proxies, turn % proxies + 1);
    }
}

/// How many turns pass until a proxy comes up.
pub open spec fn turns_until(turn: nat, proxies: nat, index: nat) -> nat {
    if index >= turn % proxies {
        (index - turn % proxies) as nat
    } else {
        (index + proxies - turn % proxies) as nat
    }
}

proof fn lemma_turns_ahead(turn: nat, proxies: nat, index: nat)
    requires
        index < proxies,
    ensures
        turns_until(turn, proxies, index) < proxies,
        (turn + turns_until(turn, proxies, index)) % proxies == index,
{
    let n = proxies as int;
    let q = turn as int / n;
    let m = turn as int % n;
    lemma_fundamental_div_mod(turn as int, n);
    let ahead = turn + turns_until(turn, proxies, index);
    assert(n * q == q * n) by (nonlinear_arith);
    assert((q + 1) * n == q * n + n) by (nonlinear_arith);
    if index >= m {
        lemma_fundamental_div_mod_converse(ahead as int, n, q, index as int);
    } else {
        lemma_fundamental_div_mod_converse(ahead as int, n, q + 1, index as int);
    }
}

/// In as many turns as there are proxies, each proxy comes up once and only once.
pub proof fn law_every_proxy_gets_its_turn(turn: nat, proxies: nat, index: nat)
    requires
        index < proxies,
    ensures
        exists|k: nat| k < proxies && #[trigger] proxy_at(turn + k, proxies) == Some(index),
        forall|k: nat, l: nat|
            k < proxies && l < proxies && #[trigger] proxy_at(turn + k, proxies) == Some(index)
                && #[trigger] proxy_at(turn + l, proxies) == Some(index) ==> k == l,
{
    lemma_turns_ahead(turn, proxies, index);
    let first = turns_until(turn, proxies, index);
    assert(proxy_at(turn + first, proxies) == Some(index));
    assert forall|k: nat, l: nat|
        k < proxies && l < proxies && #[trigger] proxy_at(turn + k, proxies) == Some(index)
            && #[trigger] proxy_at(turn + l, proxies) == Some(index) implies k == l by {
        let n = proxies as int;
        lemma_fundamental_div_mod((turn + k) as int, n);
        lemma_fundamental_div_mod((turn + l) as int, n);
        let a = (turn + k) as int / n;
        let b = (turn + l) as int / n;
        assert(n * a - n * b == k - l);
        assert(a == b) by (nonlinear_arith)
            requires
                n > 0,
                -n < n * a - n * b < n,
        ;
    }
}

/// From the beginning on, the proxies come up from the first to the last in the order of the list,
/// and then from the first again.
pub proof fn law_the_first_proxy_comes_first(
    proxies: usize,
    begun: ProxyRotation,
    rotation: &mut ProxyRotation,
    r: Option<usize>,
)
    requires
        call_ensures(ProxyRotation::new, (proxies,), begun),
        call_ensures(ProxyRotation::next_fetch_client, (rotation,), r),
        old(rotation).proxies == proxies,
    ensures
        begun.proxies == proxies && begun.turn == 0,
        proxies == 0 ==> r is None && final(rotation).turn == old(rotation).turn,
        proxies > 0 && old(rotation).turn < proxies ==> r == Some(old(rotation).turn),
        proxies > 0 ==> r is Some && r->0 == old(rotation).turn as int % proxies as int,
        proxies > 0 && old(rotation).turn < usize::MAX ==> final(rotation).turn == old(rotation).turn
            + 1,
        final(rotation).proxies == proxies,
{
    if proxies > 0 && old(rotation).turn < proxies {
        vstd::arithmetic::div_mod::lemma_small_mod(old(rotation).turn as nat, proxies as nat);
    }
}

proof fn lemma_proxies_on_both(a: Seq<Seq<char>>, b: Seq<Seq<char>>)
    ensures
        proxies_on(a + b) == proxies_on(a) + proxies_on(b),
    decreases b.len(),
{
    if b.len() == 0 {
        assert(a + b =~= a);
    } else {
        lemma_proxies_on_both(a, b.drop_last());
        assert((a + b).drop_last() =~= a + b.drop_last());
    }
    assert(proxies_on(a + b) =~= proxies_on(a) + proxies_on(b));
}

/// What is read from two files, one below the other, is what is read from the one followed by what
/// is read from the other.
pub proof fn law_files_are_read_one_after_the_other(
    first: &str,
    second: &str,
    whole: &str,
    of_first: Vec<String>,
    of_second: Vec<String>,
    of_whole: Vec<String>,
)
    requires
        call_ensures(parse_proxies, (first,), of_first),
        call_ensures(parse_proxies, (second,), of_second),
        call_ensures(parse_proxies, (whole,), of_whole),
        whole@ == first@.push('\n') + second@,
    ensures
        of_whole@.len() == of_first@.len() + of_second@.len(),
        forall|i: int|
            0 <= i < of_first@.len() ==> (#[trigger] of_whole@[i])@ == of_first@[i]@,
        forall|i: int|
            0 <= i < of_second@.len() ==> of_whole@[of_first@.len() + i]@ == (
            #[trigger] of_second@[i])@,
{
    lemma_pieces_of_both(first@, '\n', second@);
    lemma_proxies_on_both(split_at_each(first@, '\n'), split_at_each(second@, '\n'));
    let a = texts(of_first@);
    let b = texts(of_second@);
    let c = texts(of_whole@);
    assert(c == a + b);
    assert(c.len() == of_whole@.len());
    assert forall|i: int| 0 <= i < of_first@.len() implies (#[trigger] of_whole@[i])@
        == of_first@[i]@ by {
        assert(c[i] == a[i]);
    }
    assert forall|i: int| 0 <= i < of_second@.len() implies of_whole@[of_first@.len() + i]@ == (
    #[trigger] of_second@[i])@ by {
        assert(c[of_first@.len() + i] == b[i]);
    }
}

/// A line with something else than white space on it names one proxy: what is left without the
/// white space at its ends, as it is where it starts with `http://` or `https://`, else with
/// `http://` before it. A line of white space names none.
pub proof fn law_a_line_names_one_proxy(
    front: Seq<char>,
    address: Seq<char>,
    back: Seq<char>,
    line: &str,
    r: Vec<String>,
)
    requires
        call_ensures(parse_proxies, (line,), r),
        line@ == front + address + back,
        !line@.contains('\n'),
        forall|i: int| 0 <= i < front.len() ==> is_white_space(#[trigger] front[i]),
        forall|i: int| 0 <= i < back.len() ==> is_white_space(#[trigger] back[i]),
        address.len() > 0 ==> !is_white_space(address[0]) && !is_white_space(
            address[address.len() - 1],
        ),
    ensures
        address.len() == 0 ==> r@.len() == 0,
        address.len() > 0 ==> r@.len() == 1,
        forall|rest: Seq<char>|
            address.len() > 0 && address == #[trigger] ("http://"@ + rest) ==> r@[0]@ == address,
        forall|rest: Seq<char>|
            address.len() > 0 && address == #[trigger] ("https://"@ + rest) ==> r@[0]@ == address,
        address.len() > 0 && (forall|rest: Seq<char>|
            address != #[trigger] ("http://"@ + rest) && address != "https://"@ + rest)
            ==> r@[0]@ == "http://"@ + address,
{
    lemma_one_piece(line@, '\n');
    lemma_trimmed_middle(front, address, back);
    let lines = seq![line@];
    assert(lines.drop_last() =~= Seq::empty());
    assert(proxies_on(lines.drop_last()) =~= Seq::empty());
    assert(texts(r@).len() == r@.len());
    if address.len() > 0 {
        assert(proxies_on(lines) =~= seq![with_scheme(address)]);
        assert(texts(r@)[0] == r@[0]@);
        assert forall|rest: Seq<char>| address == #[trigger] ("http://"@ + rest) implies has_scheme(
            address,
        ) by {
            assert(address.subrange(0, "http://"@.len() as int) =~= "http://"@);
        }
        assert forall|rest: Seq<char>| address == #[trigger] ("https://"@ + rest) implies has_scheme(
            address,
        ) by {
            assert(address.subrange(0, "https://"@.len() as int) =~= "https://"@);
        }
        if occurs_at(address, "http://"@, 0) {
            let rest = address.skip("http://"@.len() as int);
            assert(address =~= "http://"@ + rest);
        }
        if occurs_at(address, "https://"@, 0) {
            let rest = address.skip("https://"@.len() as int);
            assert(address =~= "https://"@ + rest);
            let other = "http://"@ + rest;
        }
    }
}

} // verus!
