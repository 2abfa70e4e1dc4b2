//! What holds of the block editor across calls: registering twice is
//! registering once, removing after registering gives the text back, and the
//! blocks of other names pass through untouched.
use crate::block::{
    block_of, is_close, marker_of, rc_updated, remainder, scan, upserted, without_block,
};
use crate::text::{
    contains, is_ws, join_lines, lemma_split_nl_len, lines_of, split_nl, strip_cr, trim_end,
};
use vstd::prelude::*;

verus! {

/// `s` holds no carriage return.
pub open spec fn no_cr(s: Seq<char>) -> bool {
    forall|i: int| 0 <= i < s.len() ==> s[i] != '\r'
}

/// `s` fits on one line: no newline and no carriage return.
pub open spec fn single_line(s: Seq<char>) -> bool {
    forall|i: int| 0 <= i < s.len() ==> s[i] != '\n' && s[i] != '\r'
}

/// `s` does not end with whitespace.
pub open spec fn no_trailing_ws(s: Seq<char>) -> bool {
    s.len() == 0 || !is_ws(s.last())
}

/// No line of `ls` equals the marker `m`: no block of that marker starts.
pub open spec fn clean(ls: Seq<Seq<char>>, m: Seq<char>) -> bool {
    forall|i: int| 0 <= i < ls.len() ==> #[trigger] ls[i] != m
}

/// A profile name: not empty, and no whitespace in it.
pub open spec fn is_name(s: Seq<char>) -> bool {
    s.len() > 0 && forall|i: int| 0 <= i < s.len() ==> !is_ws(#[trigger] s[i])
}

/// The second line of a generated block.
pub open spec fn header_line(name: Seq<char>) -> Seq<char> {
    name + seq!['(', ')', ' ', '{']
}

/// The third line of a generated block.
pub open spec fn call_line(name: Seq<char>, cmd: Seq<char>) -> Seq<char> {
    seq![' ', ' ', ' ', ' '] + cmd + seq![' ', 'u', 's', 'e', ' '] + name + seq![' ', '"', '$', '@', '"']
}

proof fn lemma_split_concat(a: Seq<char>, b: Seq<char>)
    ensures
        split_nl(a + seq!['\n'] + b) == split_nl(a) + split_nl(b),
    decreases b.len(),
{
    let s = a + seq!['\n'] + b;
    lemma_split_nl_len(a);
    if b.len() == 0 {
        assert(s.drop_last() =~= a);
        assert(split_nl(s) =~= split_nl(a) + split_nl(b));
    } else {
        assert(s.drop_last() =~= a + seq!['\n'] + b.drop_last());
        lemma_split_concat(a, b.drop_last());
        lemma_split_nl_len(b.drop_last());
        let p = split_nl(a);
        let q = split_nl(b.drop_last());
        if b.last() == '\n' {
            assert(split_nl(s) =~= p + q.push(Seq::<char>::empty()));
        } else {
            assert((p + q).last() == q.last());
            assert(split_nl(s) =~= p + q.update(q.len() - 1, q.last().push(b.last())));
        }
    }
}

proof fn lemma_split_single(s: Seq<char>)
    requires
        single_line(s),
    ensures
        split_nl(s) == seq![s],
    decreases s.len(),
{
    if s.len() > 0 {
        lemma_split_single(s.drop_last());
        assert(s.drop_last().push(s.last()) =~= s);
        assert(split_nl(s) =~= seq![s]);
    } else {
        assert(s =~= Seq::<char>::empty());
    }
}

proof fn lemma_split_no_cr(s: Seq<char>)
    requires
        no_cr(s),
    ensures
        forall|i: int, j: int|
            0 <= i < split_nl(s).len() && 0 <= j < split_nl(s)[i].len() ==> #[trigger] split_nl(
                s,
            )[i][j] != '\r',
    decreases s.len(),
{
    if s.len() > 0 {
        lemma_split_no_cr(s.drop_last());
        lemma_split_nl_len(s.drop_last());
        let p = split_nl(s.drop_last());
        assert forall|i: int, j: int|
            0 <= i < split_nl(s).len() && 0 <= j < split_nl(s)[i].len() implies #[trigger] split_nl(
            s,
        )[i][j] != '\r' by {
            if s.last() != '\n' && i == p.len() - 1 && j == p.last().len() {
                assert(split_nl(s)[i][j] == s.last());
            } else if i < p.len() {
                assert(split_nl(s)[i][j] == p[i][j]);
            }
        }
    }
}

proof fn lemma_join_update_last(p: Seq<Seq<char>>, c: char)
    requires
        p.len() >= 1,
    ensures
        join_lines(p.update(p.len() - 1, p.last().push(c))) == join_lines(p).push(c),
{
    let q = p.update(p.len() - 1, p.last().push(c));
    if p.len() >= 2 {
        assert(q.drop_last() =~= p.drop_last());
        assert(join_lines(q) =~= join_lines(p).push(c));
    }
}

proof fn lemma_join_split(s: Seq<char>)
    ensures
        join_lines(split_nl(s)) == s,
    decreases s.len(),
{
    if s.len() > 0 {
        lemma_join_split(s.drop_last());
        lemma_split_nl_len(s.drop_last());
        let p = split_nl(s.drop_last());
        if s.last() == '\n' {
            let q = p.push(Seq::<char>::empty());
            assert(q.drop_last() =~= p);
            assert(join_lines(q) =~= s);
        } else {
            lemma_join_update_last(p, s.last());
            assert(s.drop_last().push(s.last()) =~= s);
        }
    }
}

/// The lines of a text without carriage returns that does not end with a
/// newline are its pieces between newlines.
proof fn lemma_lines_plain(c: Seq<char>)
    requires
        no_cr(c),
        c.len() > 0,
        c.last() != '\n',
    ensures
        lines_of(c) == split_nl(c),
        join_lines(lines_of(c)) == c,
        lines_of(c).len() >= 1,
{
    let p = split_nl(c);
    lemma_split_nl_len(c);
    lemma_split_nl_len(c.drop_last());
    lemma_split_no_cr(c);
    assert(p.last().len() > 0);
    assert forall|i: int| 0 <= i < p.drop_last().len() implies strip_cr(p.drop_last()[i]) == p[i] by {
        if p[i].len() > 0 {
            assert(p[i][p[i].len() - 1] != '\r');
        }
    }
    assert(p.drop_last().map_values(|l: Seq<char>| strip_cr(l)) =~= p.drop_last());
    assert(p.drop_last().push(p.last()) =~= p);
    lemma_join_split(c);
}

proof fn lemma_lines_empty()
    ensures
        lines_of(Seq::<char>::empty()) == Seq::<Seq<char>>::empty(),
{
    assert(lines_of(Seq::<char>::empty()) =~= Seq::<Seq<char>>::empty());
}

/// Lines that no marker starts pass a scan that is outside a block.
pub proof fn lemma_scan_clean(a: Seq<Seq<char>>, q: Seq<Seq<char>>, m: Seq<char>)
    requires
        !scan(a, m).1,
        clean(q, m),
    ensures
        scan(a + q, m) == (scan(a, m).0 + q, false),
    decreases q.len(),
{
    if q.len() == 0 {
        assert(a + q =~= a);
        assert(scan(a, m).0 + q =~= scan(a, m).0);
    } else {
        assert((a + q).drop_last() =~= a + q.drop_last());
        lemma_scan_clean(a, q.drop_last(), m);
        assert(q[q.len() - 1] != m);
        assert(scan(a, m).0 + q.drop_last().push(q.last()) =~= scan(a, m).0 + q);
    }
}

/// A scan only ever adds lines to what it kept.
pub proof fn lemma_scan_grows(a: Seq<Seq<char>>, t: Seq<Seq<char>>, m: Seq<char>)
    ensures
        scan(a, m).0.is_prefix_of(scan(a + t, m).0),
    decreases t.len(),
{
    if t.len() == 0 {
        assert(a + t =~= a);
        assert(scan(a, m).0.subrange(0, scan(a, m).0.len() as int) =~= scan(a, m).0);
    } else {
        assert((a + t).drop_last() =~= a + t.drop_last());
        lemma_scan_grows(a, t.drop_last(), m);
        let k = scan(a, m).0;
        let k2 = scan(a + t.drop_last(), m).0;
        assert(k2.push(t.last()).subrange(0, k.len() as int) =~= k2.subrange(0, k.len() as int));
    }
}

proof fn lemma_trim_fixed(c: Seq<char>)
    requires
        c.len() > 0,
        no_trailing_ws(c),
    ensures
        trim_end(c) == c,
        trim_end(c + seq!['\n']) == c,
{
    let d = c + seq!['\n'];
    assert(d.drop_last() =~= c);
    assert(trim_end(c) == c);
    assert(trim_end(d) == trim_end(c));
}

/// The generated block, laid out line by line.
proof fn lemma_block_shape(n: Seq<char>, cmd: Seq<char>)
    ensures
        block_of(n, cmd) == marker_of(n) + seq!['\n'] + (header_line(n) + seq!['\n'] + (call_line(
            n,
            cmd,
        ) + seq!['\n'] + (seq!['}'] + seq!['\n'] + Seq::<char>::empty()))),
        marker_of(n) == "# Provider function for "@ + n,
        marker_of(n).len() == 24 + n.len(),
        marker_of(n)[0] == '#',
{
    reveal_strlit("# Provider function for ");
    reveal_strlit("\n");
    reveal_strlit("() {\n    ");
    reveal_strlit(" use ");
    reveal_strlit(" \"$@\"\n}\n");
    assert(block_of(n, cmd) =~= marker_of(n) + seq!['\n'] + (header_line(n) + seq!['\n'] + (
    call_line(n, cmd) + seq!['\n'] + (seq!['}'] + seq!['\n'] + Seq::<char>::empty()))));
}

/// The lines of the generated block.
proof fn lemma_block_lines(n: Seq<char>, cmd: Seq<char>)
    requires
        single_line(n),
        single_line(cmd),
    ensures
        split_nl(block_of(n, cmd)) == seq![
            marker_of(n),
            header_line(n),
            call_line(n, cmd),
            seq!['}'],
            Seq::<char>::empty(),
        ],
        lines_of(block_of(n, cmd)) == seq![
            marker_of(n),
            header_line(n),
            call_line(n, cmd),
            seq!['}'],
        ],
{
    lemma_block_shape(n, cmd);
    let m = marker_of(n);
    let h = header_line(n);
    let c = call_line(n, cmd);
    let e = Seq::<char>::empty();
    assert(single_line(m)) by {
        reveal_strlit("# Provider function for ");
        assert forall|i: int| 0 <= i < m.len() implies m[i] != '\n' && m[i] != '\r' by {
            if i >= 24 {
                assert(m[i] == n[i - 24]);
            } else {
                assert(m[i] == "# Provider function for "@[i]);
            }
        }
    }
    assert(single_line(h)) by {
        assert forall|i: int| 0 <= i < h.len() implies h[i] != '\n' && h[i] != '\r' by {
            if i < n.len() {
                assert(h[i] == n[i]);
            }
        }
    }
    assert(single_line(c)) by {
        assert forall|i: int| 0 <= i < c.len() implies c[i] != '\n' && c[i] != '\r' by {
            if 4 <= i < 4 + cmd.len() {
                assert(c[i] == cmd[i - 4]);
            } else if 9 + cmd.len() <= i < 9 + cmd.len() + n.len() {
                assert(c[i] == n[i - 9 - cmd.len()]);
            }
        }
    }
    assert(single_line(seq!['}']));
    lemma_split_single(m);
    lemma_split_single(h);
    lemma_split_single(c);
    lemma_split_single(seq!['}']);
    lemma_split_concat(seq!['}'], e);
    lemma_split_concat(c, seq!['}'] + seq!['\n'] + e);
    lemma_split_concat(h, c + seq!['\n'] + (seq!['}'] + seq!['\n'] + e));
    lemma_split_concat(m, h + seq!['\n'] + (c + seq!['\n'] + (seq!['}'] + seq!['\n'] + e)));
    assert(split_nl(e) =~= seq![e]);
    let p = split_nl(block_of(n, cmd));
    assert(p =~= seq![m, h, c, seq!['}'], e]);
    assert(m.last() != '\r');
    assert(h.last() == '{');
    assert(c.last() == '"');
    assert(p.drop_last().map_values(|l: Seq<char>| strip_cr(l)) =~= seq![m, h, c, seq!['}']]);
}

/// Scanning the generated block for its own name drops all four of its
/// lines and ends outside any block.
proof fn lemma_scan_block(a: Seq<Seq<char>>, n: Seq<char>, cmd: Seq<char>)
    requires
        !scan(a, marker_of(n)).1,
        single_line(n),
        single_line(cmd),
    ensures
        scan(a + lines_of(block_of(n, cmd)), marker_of(n)) == (scan(a, marker_of(n)).0, false),
{
    lemma_block_lines(n, cmd);
    lemma_block_shape(n, cmd);
    let m = marker_of(n);
    let h = header_line(n);
    let c = call_line(n, cmd);
    let s1 = a.push(m);
    let s2 = s1.push(h);
    let s3 = s2.push(c);
    let s4 = s3.push(seq!['}']);
    assert(s4 =~= a + lines_of(block_of(n, cmd)));
    assert(s1.drop_last() =~= a);
    assert(s2.drop_last() =~= s1);
    assert(s3.drop_last() =~= s2);
    assert(s4.drop_last() =~= s3);
    assert(h.len() != m.len());
    assert(c[0] != m[0]);
    assert(seq!['}'].len() != m.len());
    assert(h.len() != 1 && c.len() != 1);
    assert(is_close(seq!['}']));
    let k = scan(a, m).0;
    assert(scan(s1, m) == (k, true));
    assert(scan(s2, m) == (k, true));
    assert(scan(s3, m) == (k, true));
    assert(scan(s4, m) == (k, false));
}

/// A text without carriage returns, without trailing whitespace and without
/// a block for `n` is its own remainder.
proof fn lemma_remainder_unchanged(x: Seq<char>, n: Seq<char>)
    requires
        no_cr(x),
        no_trailing_ws(x),
        clean(lines_of(x), marker_of(n)),
    ensures
        remainder(x, n) == x,
        x.len() > 0 ==> lines_of(x).len() >= 1 && join_lines(lines_of(x)) == x,
{
    let m = marker_of(n);
    let e = Seq::<Seq<char>>::empty();
    lemma_scan_clean(e, lines_of(x), m);
    assert(e + lines_of(x) =~= lines_of(x));
    assert(scan(e, m).0 + lines_of(x) =~= lines_of(x));
    if x.len() == 0 {
        lemma_lines_empty();
        assert(x =~= Seq::<char>::empty());
        assert(trim_end(Seq::<char>::empty()) == Seq::<char>::empty());
    } else {
        assert(is_ws('\n'));
        lemma_lines_plain(x);
        lemma_trim_fixed(x);
    }
}

proof fn lemma_remove_after_register_plain(x: Seq<char>, n: Seq<char>, cmd: Seq<char>)
    requires
        single_line(n),
        single_line(cmd),
        no_cr(x),
        no_trailing_ws(x),
        clean(lines_of(x), marker_of(n)),
    ensures
        remainder(upserted(x, n, cmd), n) == x,
{
    let m = marker_of(n);
    let b = block_of(n, cmd);
    let e = Seq::<Seq<char>>::empty();
    lemma_remainder_unchanged(x, n);
    lemma_block_lines(n, cmd);
    if x.len() == 0 {
        assert(upserted(x, n, cmd) == b);
        lemma_scan_block(e, n, cmd);
        assert(e + lines_of(b) =~= lines_of(b));
        assert(join_lines(e) == Seq::<char>::empty());
        assert(trim_end(Seq::<char>::empty()) == Seq::<char>::empty());
        assert(x =~= Seq::<char>::empty());
    } else {
        reveal_strlit("\n\n");
        let u = upserted(x, n, cmd);
        let empty = Seq::<char>::empty();
        assert(u =~= x + seq!['\n'] + (empty + seq!['\n'] + b));
        lemma_split_concat(x, empty + seq!['\n'] + b);
        lemma_split_concat(empty, b);
        assert(split_nl(empty) =~= seq![empty]);
        lemma_lines_plain(x);
        let lx = lines_of(x);
        let p = split_nl(u);
        assert(p =~= lx + seq![empty] + split_nl(b));
        let blk = lines_of(b);
        let a0 = lx.push(empty);
        lemma_split_no_cr(x);
        assert forall|i: int| 0 <= i < p.drop_last().len() implies strip_cr(
            #[trigger] p.drop_last()[i],
        ) == p.drop_last()[i] by {
            if i < lx.len() && lx[i].len() > 0 {
                assert(split_nl(x)[i][lx[i].len() - 1] != '\r');
            }
        }
        assert(p.drop_last().map_values(|l: Seq<char>| strip_cr(l)) =~= p.drop_last());
        assert(lines_of(u) =~= a0 + blk);
        lemma_block_shape(n, cmd);
        assert(clean(a0, m)) by {
            assert forall|i: int| 0 <= i < a0.len() implies #[trigger] a0[i] != m by {
                if i == lx.len() {
                    assert(a0[i].len() != m.len());
                }
            }
        }
        lemma_scan_clean(e, a0, m);
        assert(e + a0 =~= a0);
        assert(scan(e, m).0 + a0 =~= a0);
        lemma_scan_block(a0, n, cmd);
        assert(a0.drop_last() =~= lx);
        assert(join_lines(a0) =~= x + seq!['\n']);
        lemma_trim_fixed(x);
    }
}

proof fn lemma_trim_end_prefix(s: Seq<char>)
    ensures
        trim_end(s).len() <= s.len(),
        trim_end(s) == s.subrange(0, trim_end(s).len() as int),
        no_trailing_ws(trim_end(s)),
    decreases s.len(),
{
    if s.len() > 0 && is_ws(s.last()) {
        lemma_trim_end_prefix(s.drop_last());
        let t = trim_end(s.drop_last());
        assert(s.drop_last().subrange(0, t.len() as int) =~= s.subrange(0, t.len() as int));
    } else {
        assert(s.subrange(0, s.len() as int) =~= s);
    }
}

/// A text without carriage returns and without a block for `n` leaves, as
/// its remainder, itself without trailing whitespace.
proof fn lemma_remainder_trim(x: Seq<char>, n: Seq<char>)
    requires
        no_cr(x),
        clean(lines_of(x), marker_of(n)),
    ensures
        remainder(x, n) == trim_end(x),
{
    let m = marker_of(n);
    let e = Seq::<Seq<char>>::empty();
    lemma_scan_clean(e, lines_of(x), m);
    assert(e + lines_of(x) =~= lines_of(x));
    assert(scan(e, m).0 + lines_of(x) =~= lines_of(x));
    if x.len() == 0 {
        lemma_lines_empty();
        assert(x =~= Seq::<char>::empty());
    } else if x.last() != '\n' {
        lemma_lines_plain(x);
    } else {
        let y = x.drop_last();
        assert(no_cr(y));
        lemma_split_nl_len(y);
        lemma_split_no_cr(y);
        let p = split_nl(y);
        assert(split_nl(x) == p.push(Seq::<char>::empty()));
        assert(split_nl(x).drop_last() =~= p);
        assert forall|i: int| 0 <= i < p.len() implies strip_cr(#[trigger] p[i]) == p[i] by {
            if p[i].len() > 0 {
                assert(p[i][p[i].len() - 1] != '\r');
            }
        }
        assert(p.map_values(|l: Seq<char>| strip_cr(l)) =~= p);
        assert(lines_of(x) == p);
        lemma_join_split(y);
        assert(is_ws('\n'));
        assert(trim_end(x) == trim_end(y));
    }
}

/// Removing the block for `n` right after registering it gives back the
/// text as it was but for its trailing whitespace, which registering drops;
/// a text that was blank comes back empty, which removal turns into
/// deleting the file. This holds for a text without carriage returns that
/// holds no block for `n`, neither as it is nor once its trailing
/// whitespace is gone.
pub proof fn lemma_remove_after_register(x: Seq<char>, n: Seq<char>, cmd: Seq<char>)
    requires
        single_line(n),
        single_line(cmd),
        no_cr(x),
        clean(lines_of(x), marker_of(n)),
        clean(lines_of(trim_end(x)), marker_of(n)),
    ensures
        remainder(upserted(x, n, cmd), n) == trim_end(x),
{
    let c = trim_end(x);
    lemma_remainder_trim(x, n);
    lemma_trim_end_prefix(x);
    assert(no_cr(c)) by {
        assert forall|i: int| 0 <= i < c.len() implies c[i] != '\r' by {
            assert(c[i] == x[i]);
        }
    }
    lemma_remainder_unchanged(c, n);
    assert(upserted(x, n, cmd) == upserted(c, n, cmd));
    lemma_remove_after_register_plain(c, n, cmd);
}

/// Registering `n` twice leaves the same text as registering it once, for a
/// text without carriage returns that holds no block for `n`, neither as it
/// is nor once its trailing whitespace is gone.
pub proof fn lemma_register_idempotent(x: Seq<char>, n: Seq<char>, cmd: Seq<char>)
    requires
        single_line(n),
        single_line(cmd),
        no_cr(x),
        clean(lines_of(x), marker_of(n)),
        clean(lines_of(trim_end(x)), marker_of(n)),
    ensures
        upserted(upserted(x, n, cmd), n, cmd) == upserted(x, n, cmd),
{
    lemma_remove_after_register(x, n, cmd);
    lemma_remainder_trim(x, n);
}

/// A block of another name `q` that stands outside any block of `p` keeps
/// all its lines, whole and in order, when the blocks of `p` are dropped,
/// as upsert and removal of `p` both do.
pub proof fn lemma_other_block_kept(
    before: Seq<Seq<char>>,
    after: Seq<Seq<char>>,
    p: Seq<char>,
    q: Seq<char>,
    cmd: Seq<char>,
)
    requires
        is_name(p),
        is_name(q),
        p != q,
        single_line(cmd),
        !scan(before, marker_of(p)).1,
    ensures
        (without_block(before, marker_of(p)) + lines_of(block_of(q, cmd))).is_prefix_of(
            without_block(before + lines_of(block_of(q, cmd)) + after, marker_of(p)),
        ),
{
    let m = marker_of(p);
    let qb = lines_of(block_of(q, cmd));
    assert(is_ws('\n') && is_ws('\r'));
    assert(single_line(q)) by {
        assert forall|i: int| 0 <= i < q.len() implies q[i] != '\n' && q[i] != '\r' by {
            assert(!is_ws(q[i]));
        }
    }
    lemma_block_lines(q, cmd);
    lemma_block_shape(q, cmd);
    lemma_block_shape(p, cmd);
    reveal_strlit("# Provider function for ");
    let mq = marker_of(q);
    let h = header_line(q);
    assert(mq != m) by {
        if mq == m {
            assert(q =~= mq.subrange(24, mq.len() as int));
            assert(p =~= m.subrange(24, m.len() as int));
        }
    }
    assert(m[1] == ' ');
    assert(h[1] != ' ') by {
        if q.len() > 1 {
            assert(h[1] == q[1]);
            assert(!is_ws(q[1]));
        }
    }
    assert(call_line(q, cmd)[0] != m[0]);
    assert(seq!['}'].len() != m.len());
    assert(clean(qb, m));
    lemma_scan_clean(before, qb, m);
    lemma_scan_grows(before + qb, after, m);
}

/// Once a startup file was made to source a file, doing so again leaves it
/// as it is.
pub proof fn lemma_rc_update_once(rc: Option<Seq<char>>, line: Seq<char>)
    ensures
        rc_updated(rc, line) matches Some(t) ==> rc_updated(Some(t), line) is None,
{
    reveal_strlit("\n");
    match rc_updated(rc, line) {
        Some(t) => {
            let i: int = match rc {
                None => 0,
                Some(r) => if contains(r, line) {
                    0
                } else {
                    crate::text::trim(r).len() as int + 1
                },
            };
            assert(t.subrange(i, i + line.len()) =~= line);
        },
        None => {},
    }
}

} // verus!
