//! Reading the query of a request to the HTTP endpoint and deciding its
//! answer.
use vstd::prelude::*;

use crate::text::{chars_match, chars_of, same_text, split_all, split_once};

verus! {

broadcast use vstd::seq::group_seq_axioms;

/// The query of `url`: what follows its first `?`, or nothing where it has
/// no `?`.
pub open spec fn query_of(url: Seq<char>) -> Seq<char> {
    match split_once(url, '?') {
        Some(parts) => parts.1,
        None => Seq::<char>::empty(),
    }
}

/// The value that `piece` gives `key`, where `prev` is the value before it:
/// a piece `k=v` (cut at its first `=`) with `k == key` gives `v`; any other
/// piece leaves `prev`.
pub open spec fn piece_value(piece: Seq<char>, key: Seq<char>, prev: Option<Seq<char>>) -> Option<
    Seq<char>,
> {
    match split_once(piece, '=') {
        Some(kv) => if kv.0 == key {
            Some(kv.1)
        } else {
            prev
        },
        None => prev,
    }
}

/// The value of `key` after reading `pieces` in order: the last one given.
pub open spec fn last_value(pieces: Seq<Seq<char>>, key: Seq<char>) -> Option<Seq<char>>
    decreases pieces.len(),
{
    if pieces.len() == 0 {
        None
    } else {
        piece_value(pieces.last(), key, last_value(pieces.drop_last(), key))
    }
}

/// The value that the query of `url` gives `key`: the pieces of the query
/// between `&` are read in order, and the last `key=value` wins.
pub open spec fn query_value(url: Seq<char>, key: Seq<char>) -> Option<Seq<char>> {
    last_value(split_all(query_of(url), '&'), key)
}

/// The text of an optional string.
pub open spec fn opt_text(o: Option<String>) -> Option<Seq<char>> {
    match o {
        Some(s) => Some(s@),
        None => None,
    }
}

/// The raw values that a request URL gives the three query keys the
/// endpoint reads. Numbers stay text here: the caller reads them.
pub struct Query {
    pub color: Option<String>,
    pub interval: Option<String>,
    pub transparency: Option<String>,
}

/// The first `c` in `v[from..to]`.
fn find_char(v: &Vec<char>, from: usize, to: usize, c: char) -> (r: Option<usize>)
    requires
        from <= to <= v@.len(),
    ensures
        r matches Some(j) ==> from <= j < to && v@[j as int] == c && forall|k: int|
            from <= k < j ==> v@[k] != c,
        r is None ==> forall|k: int| from <= k < to ==> v@[k] != c,
{
    let mut j = from;
    while j < to
        invariant
            from <= j <= to <= v@.len(),
            forall|k: int| from <= k < j ==> v@[k] != c,
        decreases to - j,
    {
        if v[j] == c {
            return Some(j);
        }
        j = j + 1;
    }
    None
}

/// `split_once` of `v[from..to]`, located by `find_char`.
proof fn lemma_split_once_at(v: Seq<char>, from: int, to: int, c: char, r: Option<usize>)
    requires
        0 <= from <= to <= v.len(),
        r matches Some(j) ==> from <= j < to && v[j as int] == c && forall|k: int|
            from <= k < j ==> v[k] != c,
        r is None ==> forall|k: int| from <= k < to ==> v[k] != c,
    ensures
        r matches Some(j) ==> split_once(v.subrange(from, to), c) == Some(
            (v.subrange(from, j as int), v.subrange(j + 1, to)),
        ),
        r is None ==> split_once(v.subrange(from, to), c) is None,
{
    let s = v.subrange(from, to);
    s.index_of_first_ensures(c);
    match r {
        Some(j) => {
            let i = j - from;
            assert(s[i] == c);
            match s.index_of_first(c) {
                Some(x) => {
                    if x < i {
                        assert(s[x] == v[from + x]);
                    }
                    if x > i {
                    }
                },
                None => {},
            }
            assert(s.take(i) =~= v.subrange(from, j as int));
            assert(s.skip(i + 1) =~= v.subrange(j + 1, to));
        },
        None => {
            if s.contains(c) {
                let x = choose|x: int| 0 <= x < s.len() && s[x] == c;
                assert(s[x] == v[from + x]);
            }
        },
    }
}

/// How `split_all` grows by one character.
proof fn lemma_split_all_push(s: Seq<char>, x: char, sep: char)
    ensures
        split_all(s.push(x), sep) == (if x == sep {
            split_all(s, sep).push(Seq::<char>::empty())
        } else {
            let b = split_all(s, sep);
            b.update(b.len() - 1, b.last().push(x))
        }),
{
    assert(s.push(x).drop_last() =~= s);
}

/// Reading one more piece.
proof fn lemma_last_value_push(pieces: Seq<Seq<char>>, piece: Seq<char>, key: Seq<char>)
    ensures
        last_value(pieces.push(piece), key) == piece_value(piece, key, last_value(pieces, key)),
{
    assert(pieces.push(piece).drop_last() =~= pieces);
}

/// Reads the piece `v[ps..end]` as a `key=value` pair and records the
/// value where the key is one that the endpoint reads.
fn read_piece(url: &str, v: &Vec<char>, ps: usize, end: usize, q: &mut Query)
    requires
        ps <= end <= v@.len(),
        v@ == url@,
    ensures
        opt_text(final(q).color) == piece_value(
            v@.subrange(ps as int, end as int),
            "color"@,
            opt_text(old(q).color),
        ),
        opt_text(final(q).interval) == piece_value(
            v@.subrange(ps as int, end as int),
            "interval"@,
            opt_text(old(q).interval),
        ),
        opt_text(final(q).transparency) == piece_value(
            v@.subrange(ps as int, end as int),
            "transparency"@,
            opt_text(old(q).transparency),
        ),
{
    let eq = find_char(v, ps, end, '=');
    proof {
        lemma_split_once_at(v@, ps as int, end as int, '=', eq);
        reveal_strlit("color");
        reveal_strlit("interval");
        reveal_strlit("transparency");
        assert("color"@.len() != "interval"@.len());
        assert("color"@.len() != "transparency"@.len());
        assert("interval"@.len() != "transparency"@.len());
    }
    if let Some(e) = eq {
        let value = url.substring_char(e + 1, end);
        if chars_match(v, ps, e, "color") {
            q.color = Some(String::from_str(value));
        } else if chars_match(v, ps, e, "interval") {
            q.interval = Some(String::from_str(value));
        } else if chars_match(v, ps, e, "transparency") {
            q.transparency = Some(String::from_str(value));
        }
    }
}

/// Reads the values of `color`, `interval` and `transparency` from the query
/// of `url`; see `query_value`.
pub fn parse_query(url: &str) -> (q: Query)
    ensures
        opt_text(q.color) == query_value(url@, "color"@),
        opt_text(q.interval) == query_value(url@, "interval"@),
        opt_text(q.transparency) == query_value(url@, "transparency"@),
{
    let v = chars_of(url);
    let mut q = Query { color: None, interval: None, transparency: None };
    let mark = find_char(&v, 0, v.len(), '?');
    proof {
        lemma_split_once_at(v@, 0, v@.len() as int, '?', mark);
        assert(v@.subrange(0, v@.len() as int) =~= v@);
    }
    let start: usize = match mark {
        Some(m) => m + 1,
        None => v.len(),
    };
    let ghost query = v@.subrange(start as int, v@.len() as int);
    assert(query =~= query_of(url@));
    let ghost mut done: Seq<Seq<char>> = Seq::empty();
    let mut ps: usize = start;
    let mut i: usize = start;
    assert(query.take(0) =~= Seq::<char>::empty());
    assert(v@.subrange(ps as int, i as int) =~= Seq::<char>::empty());
    while i < v.len()
        invariant
            start <= ps <= i <= v@.len(),
            v@ == url@,
            query == v@.subrange(start as int, v@.len() as int),
            split_all(query.take(i - start), '&') == done.push(v@.subrange(ps as int, i as int)),
            opt_text(q.color) == last_value(done, "color"@),
            opt_text(q.interval) == last_value(done, "interval"@),
            opt_text(q.transparency) == last_value(done, "transparency"@),
        decreases v@.len() - i,
    {
        proof {
            lemma_split_all_push(query.take(i - start), v@[i as int], '&');
            assert(query.take(i + 1 - start) =~= query.take(i - start).push(v@[i as int]));
        }
        if v[i] == '&' {
            let ghost piece = v@.subrange(ps as int, i as int);
            read_piece(url, &v, ps, i, &mut q);
            proof {
                lemma_last_value_push(done, piece, "color"@);
                lemma_last_value_push(done, piece, "interval"@);
                lemma_last_value_push(done, piece, "transparency"@);
                done = done.push(piece);
                assert(v@.subrange(i + 1, i + 1) =~= Seq::<char>::empty());
            }
            ps = i + 1;
        } else {
            proof {
                assert(v@.subrange(ps as int, i + 1) =~= v@.subrange(ps as int, i as int).push(
                    v@[i as int],
                ));
                assert(done.push(v@.subrange(ps as int, i as int)).update(
                    done.len() as int,
                    v@.subrange(ps as int, i + 1),
                ) =~= done.push(v@.subrange(ps as int, i + 1)));
            }
        }
        i = i + 1;
    }
    let ghost piece = v@.subrange(ps as int, i as int);
    read_piece(url, &v, ps, i, &mut q);
    proof {
        assert(query.take(i - start) =~= query);
        lemma_last_value_push(done, piece, "color"@);
        lemma_last_value_push(done, piece, "interval"@);
        lemma_last_value_push(done, piece, "transparency"@);
    }
    q
}

/// A number that the caller read from the query: its decimal writing and
/// whether it lies in the range that its key accepts (an interval of at
/// least 0; a transparency from 0 to 1).
pub struct Reading {
    pub text: String,
    pub in_range: bool,
}

/// The answer to a request, and the signals it sets off.
pub struct Reply {
    pub status: u16,
    pub body: String,
    /// Whether the lamp is switched to the requested colour and interval.
    pub emit_light: bool,
    /// Whether the requested transparency is passed on to the window.
    pub emit_transparency: bool,
}

/// The colours the lamp can show.
pub open spec fn is_light_color(c: Seq<char>) -> bool {
    c == "red"@ || c == "yellow"@ || c == "green"@
}

/// Whether a request sets the lamp: it names one of the colours and gives
/// an interval in range.
pub open spec fn light_accepted(color: Option<Seq<char>>, interval: Option<Reading>) -> bool {
    color is Some && is_light_color(color->0) && interval is Some && interval->0.in_range
}

/// Whether a request sets the transparency: it gives one in range.
pub open spec fn transparency_accepted(transparency: Option<Reading>) -> bool {
    transparency is Some && transparency->0.in_range
}

/// The line that reports a switched lamp.
pub open spec fn light_part(color: Seq<char>, interval: Seq<char>) -> Seq<char> {
    "color="@ + color + " interval="@ + interval
}

/// The line that reports a passed-on transparency.
pub open spec fn transparency_part(transparency: Seq<char>) -> Seq<char> {
    "transparency="@ + transparency
}

/// What the endpoint answers.
pub open spec fn reply_body(
    is_get: bool,
    color: Option<Seq<char>>,
    interval: Option<Reading>,
    transparency: Option<Reading>,
) -> Seq<char> {
    let light = light_accepted(color, interval);
    let shade = transparency_accepted(transparency);
    if !is_get {
        "method not allowed"@
    } else if light && shade {
        "ok "@ + light_part(color->0, interval->0.text@) + ", "@ + transparency_part(transparency->0.text@)
            + "\n"@
    } else if light {
        "ok "@ + light_part(color->0, interval->0.text@) + "\n"@
    } else if shade {
        "ok "@ + transparency_part(transparency->0.text@) + "\n"@
    } else {
        "usage: GET /?color={red|yellow|green}&interval={ms, 0=solid}&transparency={0.0-1.0}\n"@
    }
}

/// The status code of the answer: 405 for a method other than GET, 200 when
/// the request set something off, 400 when it set off nothing.
pub open spec fn reply_status(
    is_get: bool,
    color: Option<Seq<char>>,
    interval: Option<Reading>,
    transparency: Option<Reading>,
) -> u16 {
    if !is_get {
        405
    } else if light_accepted(color, interval) || transparency_accepted(transparency) {
        200
    } else {
        400
    }
}

/// Whether `c` is one of the lamp colours.
pub fn light_color(c: &str) -> (r: bool)
    ensures
        r == is_light_color(c@),
{
    same_text(c, "red") || same_text(c, "yellow") || same_text(c, "green")
}

/// Decides the answer to a request whose method is GET or not (`is_get`)
/// and whose query gave `color`, `interval` and `transparency`.
pub fn answer(
    is_get: bool,
    color: &Option<String>,
    interval: &Option<Reading>,
    transparency: &Option<Reading>,
) -> (r: Reply)
    ensures
        r.status == reply_status(
            is_get,
            opt_text(*color),
            *interval,
            *transparency,
        ),
        r.body@ == reply_body(
            is_get,
            opt_text(*color),
            *interval,
            *transparency,
        ),
        r.emit_light == (is_get && light_accepted(opt_text(*color), *interval)),
        r.emit_transparency == (is_get && transparency_accepted(*transparency)),
{
    if !is_get {
        return Reply {
            status: 405,
            body: String::from_str("method not allowed"),
            emit_light: false,
            emit_transparency: false,
        };
    }
    let mut light = false;
    let mut line = String::from_str("ok ");
    if let (Some(c), Some(i)) = (color, interval) {
        if light_color(c.as_str()) && i.in_range {
            light = true;
            line.append("color=");
            line.append(c.as_str());
            line.append(" interval=");
            line.append(i.text.as_str());
        }
    }
    let mut shade = false;
    if let Some(t) = transparency {
        if t.in_range {
            shade = true;
            if light {
                line.append(", ");
            }
            line.append("transparency=");
            line.append(t.text.as_str());
        }
    }
    if light || shade {
        line.append("\n");
        Reply { status: 200, body: line, emit_light: light, emit_transparency: shade }
    } else {
        Reply {
            status: 400,
            body: String::from_str(
                "usage: GET /?color={red|yellow|green}&interval={ms, 0=solid}&transparency={0.0-1.0}\n",
            ),
            emit_light: false,
            emit_transparency: false,
        }
    }
}

/// A GET request is answered 200 exactly when it sets off a signal, and
/// 400 exactly when it sets off none; any other method is answered 405.
pub proof fn lemma_status_tracks_signals(
    color: Option<Seq<char>>,
    interval: Option<Reading>,
    transparency: Option<Reading>,
)
    ensures
        reply_status(true, color, interval, transparency) == 200 <==> (light_accepted(
            color,
            interval,
        ) || transparency_accepted(transparency)),
        reply_status(true, color, interval, transparency) == 400 <==> !(light_accepted(
            color,
            interval,
        ) || transparency_accepted(transparency)),
        reply_status(false, color, interval, transparency) == 405,
{
}

/// A text without `sep` is a single piece.
proof fn lemma_split_all_whole(s: Seq<char>, sep: char)
    requires
        !s.contains(sep),
    ensures
        split_all(s, sep) == seq![s],
    decreases s.len(),
{
    if s.len() > 0 {
        let d = s.drop_last();
        assert(!d.contains(sep)) by {
            if d.contains(sep) {
                let k = choose|k: int| 0 <= k < d.len() && d[k] == sep;
                assert(s[k] == sep);
            }
        }
        lemma_split_all_whole(d, sep);
        assert(s[s.len() - 1] != sep);
        assert(d.push(s.last()) =~= s);
        assert(seq![d].update(0, d.push(s.last())) =~= seq![s]);
    } else {
        assert(s =~= Seq::<char>::empty());
    }
}

/// Appending `sep` and a text without `sep` appends one piece.
proof fn lemma_split_all_append(a: Seq<char>, b: Seq<char>, sep: char)
    requires
        !b.contains(sep),
    ensures
        split_all(a + seq![sep] + b, sep) == split_all(a, sep).push(b),
    decreases b.len(),
{
    let s = a + seq![sep] + b;
    if b.len() == 0 {
        assert(s.drop_last() =~= a);
        assert(b =~= Seq::<char>::empty());
    } else {
        let d = b.drop_last();
        assert(!d.contains(sep)) by {
            if d.contains(sep) {
                let k = choose|k: int| 0 <= k < d.len() && d[k] == sep;
                assert(b[k] == sep);
            }
        }
        lemma_split_all_append(a, d, sep);
        assert(s.drop_last() =~= a + seq![sep] + d);
        assert(s.last() == b[b.len() - 1]);
        assert(b[b.len() - 1] != sep);
        let before = split_all(a, sep).push(d);
        assert(before.update(before.len() - 1, d.push(s.last())) =~= split_all(a, sep).push(b)) by {
            assert(d.push(s.last()) =~= b);
        }
    }
}

/// Cutting at the first `c`, found at `i`.
proof fn lemma_split_once_first(s: Seq<char>, c: char, i: int)
    requires
        0 <= i < s.len(),
        s[i] == c,
        forall|k: int| 0 <= k < i ==> s[k] != c,
    ensures
        split_once(s, c) == Some((s.take(i), s.skip(i + 1))),
{
    s.index_of_first_ensures(c);
    match s.index_of_first(c) {
        Some(x) => {
            if x < i {
                assert(s[x] != c);
            }
            if x > i {
                assert(s[i] != c);
            }
        },
        None => {
            assert(s.contains(c));
        },
    }
}

/// The query of `/?q` is `q`.
proof fn lemma_query_of_rooted(q: Seq<char>)
    ensures
        query_of("/?"@ + q) == q,
{
    reveal_strlit("/?");
    let url = "/?"@ + q;
    assert(url[0] == '/');
    assert(url[1] == '?');
    lemma_split_once_first(url, '?', 1);
    assert(url.skip(2) =~= q);
}

/// The piece `key=value`, with no `=` in `key`, gives `key` the value
/// `value`, whatever came before.
proof fn lemma_pair_piece(key: Seq<char>, value: Seq<char>, prev: Option<Seq<char>>)
    requires
        !key.contains('='),
    ensures
        piece_value(key + "="@ + value, key, prev) == Some(value),
{
    reveal_strlit("=");
    let piece = key + "="@ + value;
    assert(piece[key.len() as int] == '=');
    assert forall|k: int| 0 <= k < key.len() implies piece[k] != '=' by {
        assert(piece[k] == key[k]);
        if key[k] == '=' {
            assert(key.contains('='));
        }
    }
    lemma_split_once_first(piece, '=', key.len() as int);
    assert(piece.take(key.len() as int) =~= key);
    assert(piece.skip(key.len() as int + 1) =~= value);
}

/// `key=value` holds no `&` where neither `key` nor `value` does.
proof fn lemma_pair_has_no_amp(key: Seq<char>, value: Seq<char>)
    requires
        !key.contains('&'),
        !value.contains('&'),
    ensures
        !(key + "="@ + value).contains('&'),
{
    reveal_strlit("=");
    let piece = key + "="@ + value;
    if piece.contains('&') {
        let k = choose|k: int| 0 <= k < piece.len() && piece[k] == '&';
        if k < key.len() {
            assert(key[k] == '&');
        } else if k > key.len() {
            assert(value[k - key.len() - 1] == '&');
        }
    }
}

/// A query made of the single piece `key=value` gives `key` exactly the
/// value `value`: e.g. `/?transparency=0.5` gives `transparency` the value
/// `0.5`.
pub proof fn lemma_single_pair_query(key: Seq<char>, value: Seq<char>)
    requires
        !key.contains('='),
        !key.contains('&'),
        !value.contains('&'),
    ensures
        query_value("/?"@ + key + "="@ + value, key) == Some(value),
{
    let piece = key + "="@ + value;
    assert("/?"@ + key + "="@ + value =~= "/?"@ + piece);
    lemma_query_of_rooted(piece);
    lemma_pair_has_no_amp(key, value);
    lemma_split_all_whole(piece, '&');
    lemma_last_value_push(Seq::<Seq<char>>::empty(), piece, key);
    assert(Seq::<Seq<char>>::empty().push(piece) =~= seq![piece]);
    lemma_pair_piece(key, value, None);
}

/// The last `key=value` of a query wins, whatever the query held before it:
/// `/?<rest>&key=value` gives `key` exactly the value `value`.
pub proof fn lemma_last_pair_wins(rest: Seq<char>, key: Seq<char>, value: Seq<char>)
    requires
        !key.contains('='),
        !key.contains('&'),
        !value.contains('&'),
    ensures
        query_value("/?"@ + rest + "&"@ + key + "="@ + value, key) == Some(value),
{
    reveal_strlit("&");
    let piece = key + "="@ + value;
    let q = rest + seq!['&'] + piece;
    assert("/?"@ + rest + "&"@ + key + "="@ + value =~= "/?"@ + q);
    lemma_query_of_rooted(q);
    lemma_pair_has_no_amp(key, value);
    lemma_split_all_append(rest, piece, '&');
    lemma_last_value_push(split_all(rest, '&'), piece, key);
    lemma_pair_piece(key, value, last_value(split_all(rest, '&'), key));
}

/// A URL without `?` has no query: no key gets a value.
pub proof fn lemma_no_query(url: Seq<char>, key: Seq<char>)
    requires
        !url.contains('?'),
    ensures
        query_value(url, key) is None,
{
    url.index_of_first_ensures('?');
    let e = Seq::<char>::empty();
    assert(split_all(e, '&') == seq![e]);
    assert(seq![e].drop_last() =~= Seq::<Seq<char>>::empty());
    e.index_of_first_ensures('=');
    assert(query_of(url) == e);
    assert(split_once(e, '=') is None);
    lemma_last_value_push(Seq::<Seq<char>>::empty(), e, key);
    assert(Seq::<Seq<char>>::empty().push(e) =~= seq![e]);
}

/// A GET naming red, yellow or green with an interval in range switches the
/// lamp and is answered 200 with `ok color=<c> interval=<i>`, whatever the
/// transparency says.
pub proof fn lemma_lamp_colours_switch(c: Seq<char>, interval: Reading, transparency: Option<Reading>)
    requires
        c == "red"@ || c == "yellow"@ || c == "green"@,
        interval.in_range,
    ensures
        light_accepted(Some(c), Some(interval)),
        reply_status(true, Some(c), Some(interval), transparency) == 200,
        reply_body(true, Some(c), Some(interval), None) == "ok "@ + "color="@ + c + " interval="@
            + interval.text@ + "\n"@,
        transparency_accepted(transparency) ==> reply_body(
            true,
            Some(c),
            Some(interval),
            transparency,
        ) == "ok "@ + "color="@ + c + " interval="@ + interval.text@ + ", "@ + "transparency="@
            + transparency->0.text@ + "\n"@,
{
}

/// A colour other than red, yellow and green, a missing colour, a missing
/// interval or one out of range leaves the lamp as it is; with no
/// transparency in range either, the request is answered 400 with the usage.
pub proof fn lemma_lamp_refused(
    color: Option<Seq<char>>,
    interval: Option<Reading>,
    transparency: Option<Reading>,
)
    requires
        color is None || !(color->0 == "red"@ || color->0 == "yellow"@ || color->0 == "green"@)
            || interval is None || !interval->0.in_range,
    ensures
        !light_accepted(color, interval),
        !(transparency is Some && transparency->0.in_range) ==> reply_status(
            true,
            color,
            interval,
            transparency,
        ) == 400 && reply_body(true, color, interval, transparency)
            == "usage: GET /?color={red|yellow|green}&interval={ms, 0=solid}&transparency={0.0-1.0}\n"@,
        (transparency is Some && transparency->0.in_range) ==> reply_status(
            true,
            color,
            interval,
            transparency,
        ) == 200 && reply_body(true, color, interval, transparency) == "ok "@ + "transparency="@
            + transparency->0.text@ + "\n"@,
{
}

/// Any method but GET is answered 405 and sets nothing off.
pub proof fn lemma_only_get(
    color: Option<Seq<char>>,
    interval: Option<Reading>,
    transparency: Option<Reading>,
)
    ensures
        reply_status(false, color, interval, transparency) == 405,
        reply_body(false, color, interval, transparency) == "method not allowed"@,
{
}

} // verus!
