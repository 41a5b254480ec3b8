//! The server that hands tracking numbers out and takes rows in: its addresses, the list of
//! numbers that it sends, and the rows as it wants them.

use vstd::prelude::*;
use vstd::string::*;

use crate::json::{members, named_trees, trees, Json, JsonView};
use crate::text::{
    decimal, decimal_text, lemma_one_piece, lemma_pieces, lemma_pieces_of_both, same_text, split,
    split_at_each, texts,
};

verus! {

/// The host of the `mysql` source, to which addresses are reported too.
pub const MYSQL_HOST: &'static str = "43.128.111.219:8082";

/// The host of every other source.
pub const BIG_HOST: &'static str = "kungfu.bj.cn:8082";

/// The address that hands out `num` tracking numbers of a source.
pub open spec fn numbers_address(num_type: Seq<char>, num: nat) -> Seq<char> {
    if num_type == "mysql"@ {
        "http://"@ + MYSQL_HOST@ + "/get_mysql_usps_num?num="@ + decimal(num)
    } else {
        "http://"@ + BIG_HOST@ + "/get_big_usps_num?num="@ + decimal(num)
    }
}

/// The address that takes the rows of a source in.
pub open spec fn results_address(num_type: Seq<char>) -> Seq<char> {
    if num_type == "mysql"@ {
        "http://"@ + MYSQL_HOST@ + "/set_mysql_usps_num_res"@
    } else {
        "http://"@ + BIG_HOST@ + "/set_big_usps_num_res"@
    }
}

/// The address that hands out `num` tracking numbers of a source.
pub fn numbers_url(num_type: &str, num: usize) -> (r: String)
    ensures
        r@ == numbers_address(num_type@, num as nat),
{
    let mut url = "http://".to_string();
    if same_text(num_type, "mysql") {
        url.append(MYSQL_HOST);
        url.append("/get_mysql_usps_num?num=");
    } else {
        url.append(BIG_HOST);
        url.append("/get_big_usps_num?num=");
    }
    url.append(decimal_text(num as u64).as_str());
    url
}

/// The address that takes the rows of a source in.
pub fn results_url(num_type: &str) -> (r: String)
    ensures
        r@ == results_address(num_type@),
{
    let mut url = "http://".to_string();
    if same_text(num_type, "mysql") {
        url.append(MYSQL_HOST);
        url.append("/set_mysql_usps_num_res");
    } else {
        url.append(BIG_HOST);
        url.append("/set_big_usps_num_res");
    }
    url
}

/// The numbers that the entries give, in order. An entry gives what stands before its first bar;
/// one without a bar gives none.
pub open spec fn numbers_of(entries: Seq<Seq<char>>) -> Seq<Seq<char>>
    decreases entries.len(),
{
    if entries.len() == 0 {
        Seq::empty()
    } else {
        let before = numbers_of(entries.drop_last());
        if entries.last().contains('|') {
            before.push(split_at_each(entries.last(), '|')[0])
        } else {
            before
        }
    }
}

/// The tracking numbers that the server's list gives: entries with commas between them.
pub open spec fn numbers_in(list: Seq<char>) -> Seq<Seq<char>> {
    numbers_of(split_at_each(list, ','))
}

/// The tracking numbers that the server's list gives.
pub fn parse_numbers(list: &str) -> (r: Vec<String>)
    ensures
        texts(r@) == numbers_in(list@),
{
    let entries = split(list, ',');
    let mut out: Vec<String> = Vec::new();
    let n: usize = entries.len();
    let mut i: usize = 0;
    assert(texts(out@) =~= Seq::empty());
    while i < n
        invariant
            i <= n == entries@.len(),
            texts(out@) == numbers_of(texts(entries@).take(i as int)),
        decreases n - i,
    {
        let ghost before = out@;
        let ghost entry = entries@[i as int]@;
        proof {
            assert(texts(entries@).take(i + 1).drop_last() =~= texts(entries@).take(i as int));
            assert(texts(entries@).take(i + 1).last() == entry);
            lemma_pieces(entry, '|');
        }
        let parts = split(entries[i].as_str(), '|');
        assert(parts@.len() == texts(parts@).len());
        if parts.len() > 1 {
            let number = parts[0].clone();
            assert(texts(parts@)[0] == number@);
            out.push(number);
            assert(texts(out@) =~= texts(before).push(number@));
        }
        i = i + 1;
    }
    assert(texts(entries@).take(n as int) =~= texts(entries@));
    out
}

proof fn lemma_numbers_hold_no_marks(entries: Seq<Seq<char>>)
    requires
        forall|i: int| 0 <= i < entries.len() ==> !(#[trigger] entries[i]).contains(','),
    ensures
        forall|i: int|
            0 <= i < numbers_of(entries).len() ==> !(#[trigger] numbers_of(entries)[i]).contains(',')
                && !numbers_of(entries)[i].contains('|'),
    decreases entries.len(),
{
    if entries.len() > 0 {
        lemma_numbers_hold_no_marks(entries.drop_last());
        lemma_pieces(entries.last(), '|');
        assert(!entries[entries.len() - 1].contains(','));
        let first = split_at_each(entries.last(), '|')[0];
        assert(!first.contains(',') && !first.contains('|'));
        let before = numbers_of(entries.drop_last());
        assert forall|i: int| 0 <= i < numbers_of(entries).len() implies !(#[trigger] numbers_of(
            entries,
        )[i]).contains(',') && !numbers_of(entries)[i].contains('|') by {
            if i < before.len() {
                assert(!before[i].contains(','));
            }
        }
    }
}

/// A tracking number holds neither of the list's two marks.
pub proof fn law_numbers_hold_no_marks(list: Seq<char>)
    ensures
        forall|i: int|
            0 <= i < numbers_in(list).len() ==> !(#[trigger] numbers_in(list)[i]).contains(',')
                && !numbers_in(list)[i].contains('|'),
{
    lemma_pieces(list, ',');
    lemma_numbers_hold_no_marks(split_at_each(list, ','));
}

proof fn lemma_numbers_of_both(a: Seq<Seq<char>>, b: Seq<Seq<char>>)
    ensures
        numbers_of(a + b) == numbers_of(a) + numbers_of(b),
    decreases b.len(),
{
    if b.len() == 0 {
        assert(a + b =~= a);
    } else {
        lemma_numbers_of_both(a, b.drop_last());
        assert((a + b).drop_last() =~= a + b.drop_last());
    }
    assert(numbers_of(a + b) =~= numbers_of(a) + numbers_of(b));
}

/// The numbers of two lists with a comma between them are those of the first, followed by those
/// of the second.
pub proof fn law_lists_are_read_one_after_the_other(first: Seq<char>, second: Seq<char>)
    ensures
        numbers_in(first.push(',') + second) == numbers_in(first) + numbers_in(second),
{
    lemma_pieces_of_both(first, ',', second);
    lemma_numbers_of_both(split_at_each(first, ','), split_at_each(second, ','));
}

/// The texts of each row.
pub open spec fn row_texts(rows: Seq<Vec<String>>) -> Seq<Seq<Seq<char>>> {
    rows.map_values(|row: Vec<String>| texts(row@))
}

/// A list of texts as an array.
pub open spec fn text_array(row: Seq<Seq<char>>) -> JsonView {
    JsonView::Array(row.map_values(|text: Seq<char>| JsonView::Text(text)))
}

/// A row as the server wants it: its number, which comes first in the row, and the whole row.
pub open spec fn submitted_row(row: Seq<Seq<char>>) -> JsonView {
    JsonView::Object(
        Map::empty().insert(
            "num"@,
            JsonView::Text(
                if row.len() > 0 {
                    row[0]
                } else {
                    Seq::empty()
                },
            ),
        ).insert("res"@, text_array(row)),
    )
}

/// The rows as the server wants them.
pub open spec fn submission(rows: Seq<Seq<Seq<char>>>) -> JsonView {
    JsonView::Array(rows.map_values(|row: Seq<Seq<char>>| submitted_row(row)))
}

/// A row as the server wants it.
fn submit_row(row: &Vec<String>) -> (r: Json)
    ensures
        r@ == submitted_row(texts(row@)),
{
    let number: String = if row.len() > 0 {
        row[0].clone()
    } else {
        String::new()
    };
    let mut items: Vec<Json> = Vec::new();
    let n: usize = row.len();
    let mut i: usize = 0;
    while i < n
        invariant
            i <= n == row@.len(),
            items@.len() == i,
            forall|k: int| 0 <= k < i ==> (#[trigger] items@[k])@ == JsonView::Text(row@[k]@),
        decreases n - i,
    {
        items.push(Json::text(row[i].clone()));
        i = i + 1;
    }
    let ghost whole = text_array(texts(row@));
    let res = Json::array(items);
    assert(res@->Array_0 =~= whole->Array_0);
    let mut entries: Vec<(String, Json)> = Vec::new();
    entries.push(("num".to_string(), Json::text(number)));
    entries.push(("res".to_string(), res));
    proof {
        reveal_with_fuel(members, 3);
        let two = named_trees(entries@);
        assert(two =~= seq![("num"@, JsonView::Text(number@)), ("res"@, whole)]);
        let one = two.drop_last();
        assert(one.drop_last() =~= Seq::empty());
        assert(members(one) =~= Map::empty().insert("num"@, JsonView::Text(number@)));
        assert(members(two) == members(one).insert("res"@, whole));
        reveal_strlit("num");
        reveal_strlit("res");
        assert("num"@[0] != "res"@[0]);
    }
    Json::object(entries)
}

/// The rows as the server wants them.
pub fn submit_actions(rows: &Vec<Vec<String>>) -> (r: Json)
    ensures
        r@ == submission(row_texts(rows@)),
{
    let mut items: Vec<Json> = Vec::new();
    let n: usize = rows.len();
    let mut i: usize = 0;
    while i < n
        invariant
            i <= n == rows@.len(),
            items@.len() == i,
            forall|k: int| 0 <= k < i ==> (#[trigger] items@[k])@ == submitted_row(texts(rows@[k]@)),
        decreases n - i,
    {
        items.push(submit_row(&rows[i]));
        i = i + 1;
    }
    let r = Json::array(items);
    assert(r@->Array_0 =~= submission(row_texts(rows@))->Array_0);
    r
}

/// What to do after a try to hand rows in.
#[derive(Clone, Copy, PartialEq, Eq, Structural, Debug)]
pub enum SubmitAction {
    Done,
    /// Pause for that many seconds and try again.
    RetryAfter(u64),
}

/// What to do after a try to hand rows in: it is repeated, a second apart, until the server
/// accepts the rows.
pub fn submit_to_cache(accepted: bool) -> (r: SubmitAction)
    ensures
        accepted ==> r is Done,
        !accepted ==> r == SubmitAction::RetryAfter(1),
{
    if accepted {
        SubmitAction::Done
    } else {
        SubmitAction::RetryAfter(1)
    }
}

/// An entry gives one number, whatever its length: all that stands before its first bar.
pub proof fn law_an_entry_gives_what_stands_before_its_bar(
    number: Seq<char>,
    rest: Seq<char>,
    list: &str,
    r: Vec<String>,
)
    requires
        call_ensures(parse_numbers, (list,), r),
        !number.contains(','),
        !number.contains('|'),
        !rest.contains(','),
        list@ == number.push('|') + rest,
    ensures
        r@.len() == 1,
        r@[0]@ == number,
{
    assert(!list@.contains(',')) by {
        if list@.contains(',') {
            let i = choose|i: int| 0 <= i < list@.len() && list@[i] == ',';
            if i < number.len() {
                assert(number[i] == ',');
            } else {
                assert(i > number.len());
                assert(rest[i - number.len() - 1] == ',');
            }
        }
    }
    assert(list@.contains('|')) by {
        assert(list@[number.len() as int] == '|');
    }
    lemma_one_piece(list@, ',');
    lemma_one_piece(number, '|');
    lemma_pieces_of_both(number, '|', rest);
    let entries = seq![list@];
    assert(entries.drop_last() =~= Seq::empty());
    assert(numbers_of(entries.drop_last()) =~= Seq::empty());
    assert(numbers_of(entries) =~= seq![number]);
    assert(texts(r@)[0] == r@[0]@);
    assert(texts(r@).len() == r@.len());
}

proof fn lemma_no_bars_no_numbers(entries: Seq<Seq<char>>)
    requires
        forall|i: int| 0 <= i < entries.len() ==> !(#[trigger] entries[i]).contains('|'),
    ensures
        numbers_of(entries).len() == 0,
    decreases entries.len(),
{
    if entries.len() > 0 {
        let front = entries.drop_last();
        assert(forall|i: int| 0 <= i < front.len() ==> front[i] == entries[i]);
        lemma_no_bars_no_numbers(front);
        assert(!entries[entries.len() - 1].contains('|'));
    }
}

/// A list without a bar gives no number.
pub proof fn law_a_list_without_bars_gives_nothing(list: &str, r: Vec<String>)
    requires
        call_ensures(parse_numbers, (list,), r),
        !list@.contains('|'),
    ensures
        r@.len() == 0,
{
    lemma_pieces(list@, ',');
    let entries = split_at_each(list@, ',');
    assert forall|i: int| 0 <= i < entries.len() implies !(#[trigger] entries[i]).contains('|') by {
        if entries[i].contains('|') {
            assert(list@.contains('|'));
        }
    }
    lemma_no_bars_no_numbers(entries);
    assert(texts(r@).len() == r@.len());
}

/// What is read from two lists with a comma between them is what is read from the one, followed
/// by what is read from the other.
pub proof fn law_no_list_changes_the_reading_of_another(
    first: &str,
    second: &str,
    whole: &str,
    of_first: Vec<String>,
    of_second: Vec<String>,
    of_whole: Vec<String>,
)
    requires
        call_ensures(parse_numbers, (first,), of_first),
        call_ensures(parse_numbers, (second,), of_second),
        call_ensures(parse_numbers, (whole,), of_whole),
        whole@ == first@.push(',') + second@,
    ensures
        of_whole@.len() == of_first@.len() + of_second@.len(),
        forall|i: int|
            0 <= i < of_first@.len() ==> (#[trigger] of_whole@[i])@ == of_first@[i]@,
        forall|i: int|
            0 <= i < of_second@.len() ==> of_whole@[of_first@.len() + i]@ == (
            #[trigger] of_second@[i])@,
{
    law_lists_are_read_one_after_the_other(first@, second@);
    let a = texts(of_first@);
    let b = texts(of_second@);
    let c = texts(of_whole@);
    assert(c == a + b);
    assert(c.len() == of_whole@.len());
    assert forall|i: int| 0 <= i < of_first@.len() implies (#[trigger] of_whole@[i])@
        == of_first@[i]@ by {
        assert(c[i] == a[i]);
    }
    assert forall|i: int| 0 <= i < of_second@.len() implies of_whole@[of_first@.len() + i]@ == (
    #[trigger] of_second@[i])@ by {
        assert(c[of_first@.len() + i] == b[i]);
    }
}

/// The rows can be read back from what is submitted, unchanged: there is an item for each row, in
/// order, which holds the row's texts, all of them and in order, under `res`, the first of them
/// under `num`, and nothing else.
pub proof fn law_submitted_rows_can_be_read_back(rows: &Vec<Vec<String>>, r: Json)
    requires
        call_ensures(submit_actions, (rows,), r),
    ensures
        r@ is Array && r@->Array_0.len() == rows@.len(),
        forall|i: int|
            0 <= i < rows@.len() ==> {
                let row = (#[trigger] rows@[i])@;
                let item = r@->Array_0[i];
                &&& item is Object
                &&& forall|key: Seq<char>| #[trigger]
                    item->Object_0.contains_key(key) <==> key == "num"@ || key == "res"@
                &&& item->Object_0["res"@] is Array
                &&& item->Object_0["res"@]->Array_0.len() == row.len()
                &&& forall|k: int|
                    0 <= k < row.len() ==> item->Object_0["res"@]->Array_0[k] == JsonView::Text(
                        (#[trigger] row[k])@,
                    )
                &&& item->Object_0["num"@] == JsonView::Text(
                    if row.len() > 0 {
                        row[0]@
                    } else {
                        Seq::empty()
                    },
                )
            },
{
    reveal_strlit("num");
    reveal_strlit("res");
    assert("num"@[0] != "res"@[0]);
    assert forall|i: int| 0 <= i < rows@.len() implies {
        let row = (#[trigger] rows@[i])@;
        let item = r@->Array_0[i];
        &&& item is Object
        &&& forall|key: Seq<char>| #[trigger]
            item->Object_0.contains_key(key) <==> key == "num"@ || key == "res"@
        &&& item->Object_0["res"@] is Array
        &&& item->Object_0["res"@]->Array_0.len() == row.len()
        &&& forall|k: int|
            0 <= k < row.len() ==> item->Object_0["res"@]->Array_0[k] == JsonView::Text(
                (#[trigger] row[k])@,
            )
        &&& item->Object_0["num"@] == JsonView::Text(
            if row.len() > 0 {
                row[0]@
            } else {
                Seq::empty()
            },
        )
    } by {
        let row = rows@[i]@;
        assert(row_texts(rows@)[i] == texts(row));
        let item = r@->Array_0[i];
        assert(item == submitted_row(texts(row)));
        assert forall|k: int| 0 <= k < row.len() implies item->Object_0["res"@]->Array_0[k]
            == JsonView::Text((#[trigger] row[k])@) by {
            assert(texts(row)[k] == row[k]@);
        }
    }
}

/// Rows are handed in again, a second later, until the server accepts them.
pub proof fn law_rows_are_handed_in_until_accepted(accepted: bool, r: SubmitAction)
    requires
        call_ensures(submit_to_cache, (accepted,), r),
    ensures
        r == (if accepted {
            SubmitAction::Done
        } else {
            SubmitAction::RetryAfter(1)
        }),
{
}

/// The source `mysql` has its own server and its own two addresses, every other source the other
/// server's; the address for numbers ends with how many are asked for.
pub proof fn law_addresses_go_by_the_source(
    num_type: &str,
    num: usize,
    n: u64,
    digits: String,
    numbers: String,
    results: String,
)
    requires
        call_ensures(numbers_url, (num_type, num), numbers),
        call_ensures(results_url, (num_type,), results),
        n == num,
        call_ensures(decimal_text, (n,), digits),
    ensures
        num_type@ == "mysql"@ ==> numbers@
            == "http://43.128.111.219:8082/get_mysql_usps_num?num="@ + digits@,
        num_type@ != "mysql"@ ==> numbers@ == "http://kungfu.bj.cn:8082/get_big_usps_num?num="@
            + digits@,
        num_type@ == "mysql"@ ==> results@
            == "http://43.128.111.219:8082/set_mysql_usps_num_res"@,
        num_type@ != "mysql"@ ==> results@ == "http://kungfu.bj.cn:8082/set_big_usps_num_res"@,
{
    reveal_strlit("http://");
    reveal_strlit("43.128.111.219:8082");
    reveal_strlit("kungfu.bj.cn:8082");
    reveal_strlit("/get_mysql_usps_num?num=");
    reveal_strlit("/get_big_usps_num?num=");
    reveal_strlit("/set_mysql_usps_num_res");
    reveal_strlit("/set_big_usps_num_res");
    reveal_strlit("http://43.128.111.219:8082/get_mysql_usps_num?num=");
    reveal_strlit("http://kungfu.bj.cn:8082/get_big_usps_num?num=");
    reveal_strlit("http://43.128.111.219:8082/set_mysql_usps_num_res");
    reveal_strlit("http://kungfu.bj.cn:8082/set_big_usps_num_res");
    assert("http://43.128.111.219:8082/get_mysql_usps_num?num="@ =~= "http://"@
        + "43.128.111.219:8082"@ + "/get_mysql_usps_num?num="@);
    assert("http://kungfu.bj.cn:8082/get_big_usps_num?num="@ =~= "http://"@ + "kungfu.bj.cn:8082"@
        + "/get_big_usps_num?num="@);
    assert("http://43.128.111.219:8082/set_mysql_usps_num_res"@ =~= "http://"@
        + "43.128.111.219:8082"@ + "/set_mysql_usps_num_res"@);
    assert("http://kungfu.bj.cn:8082/set_big_usps_num_res"@ =~= "http://"@ + "kungfu.bj.cn:8082"@
        + "/set_big_usps_num_res"@);
}

} // verus!
