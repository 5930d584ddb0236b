//! The settings file: three `key=value` lines for the reminder interval
//! (minutes), the duration of one lap of the light (seconds) and the
//! number of laps.  Values are kept as typed text.
use vstd::prelude::*;
use crate::text::{
    chars_of, find_char, first_index, is_ws, lemma_first_index, lemma_first_index_none, same_chars,
    string_from_chars, trim, trim_end, trim_start, trimmed,
};
use vstd::string::*;

verus! {

/// The three settings as text: interval, lap duration, laps.
pub type SettingsView = (Seq<char>, Seq<char>, Seq<char>);

/// The settings used when the file says nothing about a key.
pub open spec fn default_settings() -> SettingsView {
    ("20"@, "8"@, "3"@)
}

/// The text split at every `'\n'`; a text without any gives one piece.
pub open spec fn split_lines(s: Seq<char>) -> Seq<Seq<char>>
    decreases s.len(),
{
    if s.len() == 0 {
        seq![Seq::empty()]
    } else {
        let prev = split_lines(s.drop_last());
        if s.last() == '\n' {
            prev.push(Seq::empty())
        } else {
            prev.update(prev.len() - 1, prev.last().push(s.last()))
        }
    }
}

/// A line with an `'='` read as (trimmed key, trimmed value), split at
/// the first `'='`.
pub open spec fn split_entry(line: Seq<char>) -> Option<(Seq<char>, Seq<char>)> {
    match first_index(line, '=') {
        Some(k) => Some((trim(line.take(k)), trim(line.skip(k + 1)))),
        None => None,
    }
}

/// The settings after reading one line.
pub open spec fn apply_line(cfg: SettingsView, line: Seq<char>) -> SettingsView {
    match split_entry(line) {
        Some((k, v)) => if k == "interval"@ {
            (v, cfg.1, cfg.2)
        } else if k == "duration"@ {
            (cfg.0, v, cfg.2)
        } else if k == "laps"@ {
            (cfg.0, cfg.1, v)
        } else {
            cfg
        },
        None => cfg,
    }
}

/// The settings after reading the lines in order: a later line for a
/// key replaces an earlier one.
pub open spec fn apply_lines(cfg: SettingsView, lines: Seq<Seq<char>>) -> SettingsView
    decreases lines.len(),
{
    if lines.len() == 0 {
        cfg
    } else {
        apply_line(apply_lines(cfg, lines.drop_last()), lines.last())
    }
}

/// The settings that a settings text holds.
pub open spec fn settings_of(text: Seq<char>) -> SettingsView {
    apply_lines(default_settings(), split_lines(text))
}

/// The settings text written for the given values.
pub open spec fn settings_text(a: Seq<char>, b: Seq<char>, c: Seq<char>) -> Seq<char> {
    "interval="@ + a + "\n"@ + "duration="@ + b + "\n"@ + "laps="@ + c + "\n"@
}

proof fn lemma_split_lines_nonempty(s: Seq<char>)
    ensures
        split_lines(s).len() >= 1,
    decreases s.len(),
{
    if s.len() > 0 {
        lemma_split_lines_nonempty(s.drop_last());
    }
}

/// The entry on line `cs[lo..hi]`, if the line has an `'='`.
fn line_entry(cs: &Vec<char>, lo: usize, hi: usize) -> (res: Option<(Vec<char>, Vec<char>)>)
    requires
        lo <= hi <= cs.len(),
    ensures
        match res {
            Some((k, v)) => split_entry(cs@.subrange(lo as int, hi as int)) == Some((k@, v@)),
            None => split_entry(cs@.subrange(lo as int, hi as int)) is None,
        },
{
    let ghost line = cs@.subrange(lo as int, hi as int);
    match find_char(cs, lo, hi, '=') {
        None => None,
        Some(k) => {
            let key = trimmed(cs, lo, lo + k);
            let value = trimmed(cs, lo + k + 1, hi);
            proof {
                assert(line.take(k as int) =~= cs@.subrange(lo as int, (lo + k) as int));
                assert(line.skip(k + 1) =~= cs@.subrange((lo + k + 1) as int, hi as int));
            }
            Some((key, value))
        },
    }
}

/// Reads one line of `cs`, `cs[lo..hi]`, into the settings.
fn read_line(cs: &Vec<char>, lo: usize, hi: usize, cfg: &mut (String, String, String))
    requires
        lo <= hi <= cs.len(),
    ensures
        (final(cfg).0@, final(cfg).1@, final(cfg).2@) == apply_line(
            (old(cfg).0@, old(cfg).1@, old(cfg).2@),
            cs@.subrange(lo as int, hi as int),
        ),
{
    if let Some((key, value)) = line_entry(cs, lo, hi) {
        if same_chars(&key, &chars_of("interval")) {
            cfg.0 = string_from_chars(&value);
        } else if same_chars(&key, &chars_of("duration")) {
            cfg.1 = string_from_chars(&value);
        } else if same_chars(&key, &chars_of("laps")) {
            cfg.2 = string_from_chars(&value);
        }
    }
}

/// Reads a settings text: each line `key=value` with key `interval`,
/// `duration` or `laps` (surrounding whitespace ignored) sets that value,
/// trimmed; the last such line wins; other lines are ignored; keys that
/// never occur keep the defaults `20`, `8` and `3`.
pub fn parse_config(text: &str) -> (res: (String, String, String))
    ensures
        (res.0@, res.1@, res.2@) == settings_of(text@),
{
    let cs = chars_of(text);
    let mut cfg = (String::from_str("20"), String::from_str("8"), String::from_str("3"));
    let ghost mut done: Seq<Seq<char>> = Seq::empty();
    let mut start: usize = 0;
    let mut i: usize = 0;
    proof {
        assert(cs@.take(0) =~= Seq::<char>::empty());
        assert(cs@.subrange(0, 0) =~= Seq::<char>::empty());
        assert(split_lines(Seq::<char>::empty()) =~= Seq::<Seq<char>>::empty().push(Seq::empty()));
    }
    while i < cs.len()
        invariant
            start <= i <= cs.len(),
            cs@ == text@,
            split_lines(cs@.take(i as int)) == done.push(cs@.subrange(start as int, i as int)),
            (cfg.0@, cfg.1@, cfg.2@) == apply_lines(default_settings(), done),
        decreases cs.len() - i,
    {
        let ghost before = cs@.take(i as int);
        proof {
            assert(cs@.take(i + 1).drop_last() =~= before);
        }
        if cs[i] == '\n' {
            read_line(&cs, start, i, &mut cfg);
            proof {
                let cur = cs@.subrange(start as int, i as int);
                assert(done.push(cur).drop_last() =~= done);
                done = done.push(cur);
                assert(cs@.subrange((i + 1) as int, (i + 1) as int) =~= Seq::<char>::empty());
            }
            start = i + 1;
        } else {
            proof {
                assert(cs@.subrange(start as int, i + 1) =~= cs@.subrange(start as int, i as int).push(cs@[i as int]));
                assert(done.push(cs@.subrange(start as int, i as int)).update(done.len() as int, cs@.subrange(start as int, i + 1)) =~= done.push(cs@.subrange(start as int, i + 1)));
            }
        }
        i += 1;
    }
    read_line(&cs, start, i, &mut cfg);
    proof {
        let last = cs@.subrange(start as int, i as int);
        assert(cs@.take(i as int) =~= text@);
        assert(done.push(last).drop_last() =~= done);
    }
    cfg
}


/// The settings text for the three values, one `key=value` line each.
pub fn render_config(a: &str, b: &str, c: &str) -> (res: String)
    ensures
        res@ == settings_text(a@, b@, c@),
{
    let mut out = String::from_str("interval=");
    out.append(a);
    out.append("\n");
    out.append("duration=");
    out.append(b);
    out.append("\n");
    out.append("laps=");
    out.append(c);
    out.append("\n");
    out
}

proof fn lemma_split_lines_extend(s: Seq<char>, t: Seq<char>)
    requires
        forall|i: int| 0 <= i < t.len() ==> t[i] != '\n',
    ensures
        split_lines(s + t) == split_lines(s).update(
            split_lines(s).len() - 1,
            split_lines(s).last() + t,
        ),
    decreases t.len(),
{
    lemma_split_lines_nonempty(s);
    let p = split_lines(s);
    if t.len() == 0 {
        assert(s + t =~= s);
        assert(p.last() + t =~= p.last());
        assert(p.update(p.len() - 1, p.last()) =~= p);
    } else {
        let u = t.drop_last();
        lemma_split_lines_extend(s, u);
        assert((s + t).drop_last() =~= s + u);
        assert((s + t).last() == t.last());
        assert(p.last() + u + seq![t.last()] =~= p.last() + t);
        let q = split_lines(s + u);
        assert(q.last() == p.last() + u);
        assert(q.last().push(t.last()) =~= p.last() + t);
        assert(q.update(q.len() - 1, q.last().push(t.last())) =~= p.update(
            p.len() - 1,
            p.last() + t,
        ));
    }
}

proof fn lemma_split_lines_newline(s: Seq<char>)
    ensures
        split_lines(s + "\n"@) == split_lines(s).push(Seq::empty()),
{
    reveal_strlit("\n");
    assert((s + "\n"@).drop_last() =~= s);
}

/// One settings line `name=value` for a name without `'='` or
/// surrounding whitespace reads as (name, trimmed value).
proof fn lemma_entry(name: Seq<char>, v: Seq<char>)
    requires
        "="@.len() == 1,
        "="@[0] == '=',
        name.len() > 0,
        !is_ws(name[0]),
        !is_ws(name.last()),
        forall|i: int| 0 <= i < name.len() ==> name[i] != '=',
    ensures
        split_entry(name + "="@ + v) == Some((name, trim(v))),
{
    let line = name + "="@ + v;
    let k: int = name.len() as int;
    lemma_first_index(line, '=', k);
    assert(line.take(k) =~= name);
    assert(line.skip(k + 1) =~= v);
    assert(trim_start(name) == name);
    assert(trim_end(name) == name);
}

proof fn lemma_settings_lines(a: Seq<char>, b: Seq<char>, c: Seq<char>)
    requires
        forall|i: int| 0 <= i < a.len() ==> a[i] != '\n',
        forall|i: int| 0 <= i < b.len() ==> b[i] != '\n',
        forall|i: int| 0 <= i < c.len() ==> c[i] != '\n',
    ensures
        split_lines(settings_text(a, b, c)) == seq![
            "interval="@ + a,
            "duration="@ + b,
            "laps="@ + c,
            Seq::<char>::empty(),
        ],
{
    reveal_strlit("interval=");
    reveal_strlit("duration=");
    reveal_strlit("laps=");
    let x1 = "interval="@ + a;
    let x2 = "duration="@ + b;
    let x3 = "laps="@ + c;
    let e: Seq<char> = Seq::empty();
    let t1 = x1 + "\n"@;
    let t2 = t1 + x2 + "\n"@;
    let t3 = t2 + x3 + "\n"@;
    assert forall|i: int| 0 <= i < x1.len() implies x1[i] != '\n' by {
        if i >= 9 {
            assert(x1[i] == a[i - 9]);
        }
    }
    assert forall|i: int| 0 <= i < x2.len() implies x2[i] != '\n' by {
        if i >= 9 {
            assert(x2[i] == b[i - 9]);
        }
    }
    assert forall|i: int| 0 <= i < x3.len() implies x3[i] != '\n' by {
        if i >= 5 {
            assert(x3[i] == c[i - 5]);
        }
    }
    assert(e + x1 =~= x1);
    lemma_split_lines_extend(e, x1);
    assert(split_lines(e) =~= seq![e]);
    assert(split_lines(x1) =~= seq![x1]);
    lemma_split_lines_newline(x1);
    assert(split_lines(t1) =~= seq![x1, e]);
    lemma_split_lines_extend(t1, x2);
    assert(split_lines(t1 + x2) =~= seq![x1, x2]);
    lemma_split_lines_newline(t1 + x2);
    assert(split_lines(t2) =~= seq![x1, x2, e]);
    lemma_split_lines_extend(t2, x3);
    assert(split_lines(t2 + x3) =~= seq![x1, x2, x3]);
    lemma_split_lines_newline(t2 + x3);
    assert(split_lines(t3) =~= seq![x1, x2, x3, e]);
    assert(t3 =~= settings_text(a, b, c));
}

proof fn lemma_interval_line(cfg: SettingsView, a: Seq<char>)
    ensures
        apply_line(cfg, "interval="@ + a) == (trim(a), cfg.1, cfg.2),
{
    reveal_strlit("interval=");
    reveal_strlit("interval");
    reveal_strlit("=");
    let n = "interval"@;
    assert(n + "="@ + a =~= "interval="@ + a);
    assert(!is_ws('i') && !is_ws('l'));
    lemma_entry(n, a);
}

proof fn lemma_duration_line(cfg: SettingsView, b: Seq<char>)
    ensures
        apply_line(cfg, "duration="@ + b) == (cfg.0, trim(b), cfg.2),
{
    reveal_strlit("duration=");
    reveal_strlit("duration");
    reveal_strlit("interval");
    reveal_strlit("=");
    let n = "duration"@;
    assert(n + "="@ + b =~= "duration="@ + b);
    assert(!is_ws('d') && !is_ws('n'));
    lemma_entry(n, b);
    assert(n[0] != "interval"@[0]);
}

proof fn lemma_laps_line(cfg: SettingsView, c: Seq<char>)
    ensures
        apply_line(cfg, "laps="@ + c) == (cfg.0, cfg.1, trim(c)),
{
    reveal_strlit("laps=");
    reveal_strlit("laps");
    reveal_strlit("duration");
    reveal_strlit("interval");
    reveal_strlit("=");
    let n = "laps"@;
    assert(n + "="@ + c =~= "laps="@ + c);
    assert(!is_ws('l') && !is_ws('s'));
    lemma_entry(n, c);
}

/// Writing the settings and reading the text back gives the values as
/// written, without surrounding whitespace, as long as none of them holds
/// a line break.
pub proof fn lemma_settings_round_trip(a: Seq<char>, b: Seq<char>, c: Seq<char>)
    requires
        forall|i: int| 0 <= i < a.len() ==> a[i] != '\n',
        forall|i: int| 0 <= i < b.len() ==> b[i] != '\n',
        forall|i: int| 0 <= i < c.len() ==> c[i] != '\n',
    ensures
        settings_of(settings_text(a, b, c)) == (trim(a), trim(b), trim(c)),
{
    lemma_settings_lines(a, b, c);
    let x1 = "interval="@ + a;
    let x2 = "duration="@ + b;
    let x3 = "laps="@ + c;
    let e: Seq<char> = Seq::empty();
    let d = default_settings();
    lemma_first_index_none(e, '=');
    lemma_interval_line(d, a);
    lemma_duration_line((trim(a), d.1, d.2), b);
    lemma_laps_line((trim(a), trim(b), d.2), c);
    let lines = seq![x1, x2, x3, e];
    assert(lines.drop_last() =~= seq![x1, x2, x3]);
    assert(seq![x1, x2, x3].drop_last() =~= seq![x1, x2]);
    assert(seq![x1, x2].drop_last() =~= seq![x1]);
    assert(seq![x1].drop_last() =~= Seq::<Seq<char>>::empty());
    assert(apply_lines(d, Seq::<Seq<char>>::empty()) == d);
    assert(apply_lines(d, seq![x1]) == (trim(a), d.1, d.2));
    assert(apply_lines(d, seq![x1, x2]) == (trim(a), trim(b), d.2));
    assert(apply_lines(d, seq![x1, x2, x3]) == (trim(a), trim(b), trim(c)));
    assert(apply_lines(d, lines) == (trim(a), trim(b), trim(c)));
}

/// An empty settings text (as a missing file reads) gives the defaults.
pub proof fn lemma_empty_text_defaults()
    ensures
        settings_of(Seq::empty()) == default_settings(),
{
    let e: Seq<char> = Seq::empty();
    lemma_first_index_none(e, '=');
    assert(split_lines(e) =~= seq![e]);
    assert(seq![e].drop_last() =~= Seq::<Seq<char>>::empty());
    let d = default_settings();
    assert(apply_lines(d, Seq::<Seq<char>>::empty()) == d);
    assert(apply_line(d, e) == d);
    assert(apply_lines(d, seq![e]) == d);
}

/// A `key=value` line appended to any settings text sets that key to the
/// trimmed value and leaves the other two as the text had them: the last
/// line for a key wins.
pub proof fn lemma_appended_line_wins(t: Seq<char>, v: Seq<char>)
    requires
        forall|i: int| 0 <= i < v.len() ==> v[i] != '\n',
    ensures
        settings_of(t + "\n"@ + "interval="@ + v) == (trim(v), settings_of(t).1, settings_of(t).2),
        settings_of(t + "\n"@ + "duration="@ + v) == (settings_of(t).0, trim(v), settings_of(t).2),
        settings_of(t + "\n"@ + "laps="@ + v) == (settings_of(t).0, settings_of(t).1, trim(v)),
{
    reveal_strlit("interval=");
    reveal_strlit("duration=");
    reveal_strlit("laps=");
    lemma_appended_line(t, "interval="@, v);
    lemma_appended_line(t, "duration="@, v);
    lemma_appended_line(t, "laps="@, v);
    lemma_interval_line(settings_of(t), v);
    lemma_duration_line(settings_of(t), v);
    lemma_laps_line(settings_of(t), v);
}

proof fn lemma_appended_line(t: Seq<char>, name: Seq<char>, v: Seq<char>)
    requires
        forall|i: int| 0 <= i < v.len() ==> v[i] != '\n',
        forall|i: int| 0 <= i < name.len() ==> name[i] != '\n',
    ensures
        settings_of(t + "\n"@ + name + v) == apply_line(settings_of(t), name + v),
{
    let x = name + v;
    assert forall|i: int| 0 <= i < x.len() implies x[i] != '\n' by {
        if i >= name.len() {
            assert(x[i] == v[i - name.len()]);
        }
    }
    lemma_split_lines_newline(t);
    let u = t + "\n"@;
    lemma_split_lines_extend(u, x);
    assert(t + "\n"@ + name + v =~= u + x);
    let lines = split_lines(u);
    assert(lines == split_lines(t).push(Seq::empty()));
    let full = lines.update(lines.len() - 1, lines.last() + x);
    assert(lines.last() + x =~= x);
    assert(full =~= split_lines(t).push(x));
    assert(full.drop_last() =~= split_lines(t));
}

} // verus!
