//! The lockfile's textual form: each lock entry as six `key = "value"`
//! lines under its section's header. The writer's output is pinned
//! down line by line, the reader is exact against the same layout, and
//! the round trip — reading back what was written restores every
//! record of both sections — is proved.

use vstd::prelude::*;

use crate::lockfile::{Artefact, LockfileV1, Sha512Checksum};
use crate::text::str_eq;
use vstd::string::StrSliceExecFns;
use vstd::string::StringExecFns;

verus! {

/// Whether text can stand between the quotes of a field line unescaped:
/// no quote, no backslash, no control character.
pub open spec fn text_ok(s: Seq<char>) -> bool {
    forall|i: int| 0 <= i < s.len() ==> {
        &&& (#[trigger] s[i]) != '"'
        &&& s[i] != '\\'
        &&& s[i] as int >= 32
    }
}

/// Whether every field of `a` can stand in a field line unescaped.
pub open spec fn artefact_text_ok(a: Artefact) -> bool {
    &&& text_ok(a.project_id@)
    &&& text_ok(a.project_slug@)
    &&& text_ok(a.version_id@)
    &&& text_ok(a.version_number@)
    &&& text_ok(a.filename@)
    &&& text_ok(a.checksum.0@)
}

/// The text of one field line.
pub open spec fn spec_field_line(key: Seq<char>, value: Seq<char>) -> Seq<char> {
    key + " = \""@ + value + "\""@
}

/// Whether `l` has the shape of a field line for `key`: the key, the
/// separator, an opening quote, and a closing quote at the end.
pub open spec fn spec_is_field_line(l: Seq<char>, key: Seq<char>) -> bool {
    &&& l.len() >= key.len() + 5
    &&& l.subrange(0, key.len() + 4 as int) == key + " = \""@
    &&& l[l.len() - 1] == '"'
}

/// The text between the quotes of a field line.
pub open spec fn spec_field_value(l: Seq<char>, key: Seq<char>) -> Seq<char> {
    l.subrange(key.len() + 4 as int, l.len() - 1)
}

/// A field line parses back to the value it was written from.
pub proof fn lemma_field_line_round_trip(key: Seq<char>, value: Seq<char>)
    ensures
        spec_is_field_line(spec_field_line(key, value), key),
        spec_field_value(spec_field_line(key, value), key) == value,
{
    reveal_strlit(" = \"");
    reveal_strlit("\"");
    let l = spec_field_line(key, value);
    assert(l.subrange(0, key.len() + 4 as int) =~= key + " = \""@);
    assert(spec_field_value(l, key) =~= value);
}

/// Writes one field line.
pub fn encode_field_line(key: &str, value: &str) -> (r: String)
    ensures
        r@ == spec_field_line(key@, value@),
{
    let mut s = key.to_owned();
    s.append(" = \"");
    s.append(value);
    s.append("\"");
    s
}

/// Reads one field line back: the text between the quotes, if `line`
/// has the shape of a field line for `key`.
pub fn decode_field_line(line: &str, key: &str) -> (r: Option<String>)
    ensures
        r is Some <==> spec_is_field_line(line@, key@),
        r matches Some(s) ==> s@ == spec_field_value(line@, key@),
{
    proof {
        reveal_strlit(" = \"");
        reveal_strlit("\"");
    }
    let n = line.unicode_len();
    let k = key.unicode_len();
    if n < 5 || k > n - 5 {
        return None;
    }
    let mut prefix = key.to_owned();
    prefix.append(" = \"");
    let head = line.substring_char(0, k + 4);
    if !str_eq(head, prefix.as_str()) {
        return None;
    }
    let last = line.substring_char(n - 1, n);
    if !str_eq(last, "\"") {
        proof {
            assert(last@ =~= line@.subrange(n - 1 as int, n as int));
            if line@[n - 1] == '"' {
                assert(last@ =~= "\""@);
            }
        }
        return None;
    }
    proof {
        assert(last@[0] == line@[n - 1]);
        assert(last@[0] == '"');
    }
    Some(line.substring_char(k + 4, n - 1).to_owned())
}

/// The six lines that encode one lock entry, in field order.
pub open spec fn spec_encode_artefact(a: Artefact) -> Seq<Seq<char>> {
    seq![
        spec_field_line("project_id"@, a.project_id@),
        spec_field_line("project_slug"@, a.project_slug@),
        spec_field_line("version_id"@, a.version_id@),
        spec_field_line("version_number"@, a.version_number@),
        spec_field_line("filename"@, a.filename@),
        spec_field_line("checksum"@, a.checksum.0@),
    ]
}

/// What six lines decode to: the six field values, if every line has
/// the shape of its field's line.
pub open spec fn spec_decode_record(ls: Seq<Seq<char>>) -> Option<
    (Seq<char>, Seq<char>, Seq<char>, Seq<char>, Seq<char>, Seq<char>),
> {
    if {
        &&& ls.len() == 6
        &&& spec_is_field_line(ls[0], "project_id"@)
        &&& spec_is_field_line(ls[1], "project_slug"@)
        &&& spec_is_field_line(ls[2], "version_id"@)
        &&& spec_is_field_line(ls[3], "version_number"@)
        &&& spec_is_field_line(ls[4], "filename"@)
        &&& spec_is_field_line(ls[5], "checksum"@)
    } {
        Option::Some(
            (
                spec_field_value(ls[0], "project_id"@),
                spec_field_value(ls[1], "project_slug"@),
                spec_field_value(ls[2], "version_id"@),
                spec_field_value(ls[3], "version_number"@),
                spec_field_value(ls[4], "filename"@),
                spec_field_value(ls[5], "checksum"@),
            ),
        )
    } else {
        Option::None
    }
}

/// Writes the six field lines of one lock entry.
pub fn encode_artefact(a: &Artefact) -> (r: Vec<String>)
    ensures
        r@.len() == 6,
        forall|i: int| 0 <= i < 6 ==> (#[trigger] r@[i])@ == spec_encode_artefact(*a)[i],
{
    let mut r: Vec<String> = Vec::new();
    r.push(encode_field_line("project_id", a.project_id.as_str()));
    r.push(encode_field_line("project_slug", a.project_slug.as_str()));
    r.push(encode_field_line("version_id", a.version_id.as_str()));
    r.push(encode_field_line("version_number", a.version_number.as_str()));
    r.push(encode_field_line("filename", a.filename.as_str()));
    r.push(encode_field_line("checksum", a.checksum.0.as_str()));
    r
}

/// Reads one lock entry back from six lines.
pub fn decode_artefact(lines: &Vec<String>, start: usize) -> (r: Option<Artefact>)
    requires
        start + 6 <= lines@.len(),
    ensures
        ({
            let ls = Seq::new(6, |i: int| lines@[start + i]@);
            &&& r is Some <==> spec_decode_record(ls) is Some
            &&& r matches Some(b) ==> spec_decode_record(ls) matches Some(t) && {
                &&& b.project_id@ == t.0
                &&& b.project_slug@ == t.1
                &&& b.version_id@ == t.2
                &&& b.version_number@ == t.3
                &&& b.filename@ == t.4
                &&& b.checksum.0@ == t.5
            }
        }),
{
    let n = lines.len();
    assert(start + 6 <= n);
    let project_id = match decode_field_line(lines[start].as_str(), "project_id") {
        Some(v) => v,
        None => {
            return None;
        },
    };
    let project_slug = match decode_field_line(lines[start + 1].as_str(), "project_slug") {
        Some(v) => v,
        None => {
            return None;
        },
    };
    let version_id = match decode_field_line(lines[start + 2].as_str(), "version_id") {
        Some(v) => v,
        None => {
            return None;
        },
    };
    let version_number = match decode_field_line(lines[start + 3].as_str(), "version_number") {
        Some(v) => v,
        None => {
            return None;
        },
    };
    let filename = match decode_field_line(lines[start + 4].as_str(), "filename") {
        Some(v) => v,
        None => {
            return None;
        },
    };
    let checksum = match decode_field_line(lines[start + 5].as_str(), "checksum") {
        Some(v) => v,
        None => {
            return None;
        },
    };
    Some(
        Artefact {
            project_id,
            project_slug,
            version_id,
            version_number,
            filename,
            checksum: Sha512Checksum(checksum),
        },
    )
}

/// The section header line that introduces one record of `name`'s list.
pub open spec fn spec_header(name: Seq<char>) -> Seq<char> {
    "[["@ + name + "]]"@
}

/// The lines of one section: for each record of `arts`, in order, the
/// header, the six field lines, and a separating blank line.
pub open spec fn spec_encode_section(name: Seq<char>, arts: Seq<Artefact>) -> Seq<Seq<char>>
    decreases arts.len(),
{
    if arts.len() == 0 {
        Seq::empty()
    } else {
        spec_encode_section(name, arts.drop_last()) + seq![spec_header(name)]
            + spec_encode_artefact(arts.last()) + seq![Seq::<char>::empty()]
    }
}

/// The lines of the persisted lockfile: the datapack section, then the
/// fabric section.
pub open spec fn spec_encode_lockfile(l: LockfileV1) -> Seq<Seq<char>> {
    spec_encode_section("datapack"@, l.datapack@) + spec_encode_section("fabric"@, l.fabric@)
}

fn encode_header(name: &str) -> (r: String)
    ensures
        r@ == spec_header(name@),
{
    let mut s = "[[".to_owned();
    s.append(name);
    s.append("]]");
    s
}

fn encode_section(out: &mut Vec<String>, name: &str, arts: &Vec<Artefact>)
    ensures
        final(out)@.len() == old(out)@.len() + spec_encode_section(name@, arts@).len(),
        forall|i: int| 0 <= i < old(out)@.len() ==> final(out)@[i] == old(out)@[i],
        forall|i: int|
            0 <= i < spec_encode_section(name@, arts@).len() ==> (#[trigger] final(out)@[old(
                out,
            )@.len() + i])@ == spec_encode_section(name@, arts@)[i],
{
    let ghost base = out@;
    let mut i: usize = 0;
    while i < arts.len()
        invariant
            i <= arts@.len(),
            out@.len() == base.len() + spec_encode_section(name@, arts@.take(i as int)).len(),
            forall|k: int| 0 <= k < base.len() ==> out@[k] == base[k],
            forall|k: int|
                0 <= k < spec_encode_section(name@, arts@.take(i as int)).len() ==> (
                #[trigger] out@[base.len() + k])@ == spec_encode_section(
                    name@,
                    arts@.take(i as int),
                )[k],
        decreases arts@.len() - i,
    {
        let ghost before = out@;
        let ghost prefix = spec_encode_section(name@, arts@.take(i as int));
        out.push(encode_header(name));
        let lines = encode_artefact(&arts[i]);
        out.push(lines[0].clone());
        out.push(lines[1].clone());
        out.push(lines[2].clone());
        out.push(lines[3].clone());
        out.push(lines[4].clone());
        out.push(lines[5].clone());
        out.push(String::new());
        proof {
            assert(arts@.take(i + 1).drop_last() =~= arts@.take(i as int));
            assert(arts@.take(i + 1).last() == arts@[i as int]);
            let whole = spec_encode_section(name@, arts@.take(i + 1));
            assert(whole =~= prefix + seq![spec_header(name@)] + spec_encode_artefact(
                arts@[i as int],
            ) + seq![Seq::<char>::empty()]);
            assert(whole.len() == prefix.len() + 8);
            assert forall|k: int| 0 <= k < whole.len() implies (#[trigger] out@[base.len() + k])@
                == whole[k] by {
                if k < prefix.len() {
                    assert(out@[base.len() + k] == before[base.len() + k]);
                } else {
                    let j = k - prefix.len();
                    assert(out@[base.len() + k] == out@[before.len() + j]);
                }
            };
        }
        i += 1;
    }
    proof {
        assert(arts@.take(arts@.len() as int) =~= arts@);
    }
}

/// Writes the lockfile's persisted text, line by line: each lock entry
/// of each section under its section header, exactly as
/// `spec_encode_lockfile` lays it out.
pub fn encode_lockfile(l: &LockfileV1) -> (r: Vec<String>)
    ensures
        r@.len() == spec_encode_lockfile(*l).len(),
        forall|i: int|
            0 <= i < r@.len() ==> (#[trigger] r@[i])@ == spec_encode_lockfile(*l)[i],
{
    let mut out: Vec<String> = Vec::new();
    encode_section(&mut out, "datapack", &l.datapack);
    let ghost mid = out@;
    encode_section(&mut out, "fabric", &l.fabric);
    proof {
        let dp = spec_encode_section("datapack"@, l.datapack@);
        let fb = spec_encode_section("fabric"@, l.fabric@);
        assert forall|i: int| 0 <= i < out@.len() implies (#[trigger] out@[i])@
            == spec_encode_lockfile(*l)[i] by {
            if i < dp.len() {
                assert(out@[i] == mid[i]);
                assert(mid[0 + i]@ == dp[i]);
            } else {
                assert(out@[mid.len() + (i - dp.len())]@ == fb[i - dp.len()]);
            }
        };
    }
    out
}

/// The view of one lock entry: its six text fields, in field order.
pub open spec fn rec_of(a: Artefact) -> (
    Seq<char>,
    Seq<char>,
    Seq<char>,
    Seq<char>,
    Seq<char>,
    Seq<char>,
) {
    (a.project_id@, a.project_slug@, a.version_id@, a.version_number@, a.filename@, a.checksum.0@)
}

/// The views of a list of lock entries.
pub open spec fn recs_of(s: Seq<Artefact>) -> Seq<
    (Seq<char>, Seq<char>, Seq<char>, Seq<char>, Seq<char>, Seq<char>),
> {
    s.map_values(|a: Artefact| rec_of(a))
}

/// What the lockfile's lines decode to, reading block after block from
/// `pos` — a section header, six field lines, one blank line — until
/// the lines end: the records of the datapack section and of the fabric
/// section, each in order.
pub open spec fn spec_decode_blocks(ls: Seq<Seq<char>>, pos: int) -> Option<
    (
        Seq<(Seq<char>, Seq<char>, Seq<char>, Seq<char>, Seq<char>, Seq<char>)>,
        Seq<(Seq<char>, Seq<char>, Seq<char>, Seq<char>, Seq<char>, Seq<char>)>,
    ),
>
    decreases ls.len() - pos,
{
    if pos == ls.len() {
        Option::Some((Seq::empty(), Seq::empty()))
    } else if pos < 0 || pos + 8 > ls.len() {
        Option::None
    } else {
        match spec_decode_record(ls.subrange(pos + 1, pos + 7)) {
            Option::None => Option::None,
            Option::Some(t) => {
                if ls[pos + 7].len() != 0 {
                    Option::None
                } else {
                    match spec_decode_blocks(ls, pos + 8) {
                        Option::None => Option::None,
                        Option::Some(rest) => {
                            if ls[pos] == spec_header("datapack"@) {
                                Option::Some((seq![t] + rest.0, rest.1))
                            } else if ls[pos] == spec_header("fabric"@) {
                                Option::Some((rest.0, seq![t] + rest.1))
                            } else {
                                Option::None
                            }
                        },
                    }
                }
            },
        }
    }
}

proof fn lemma_encode_section_front(name: Seq<char>, arts: Seq<Artefact>)
    requires
        arts.len() > 0,
    ensures
        spec_encode_section(name, arts) =~= seq![spec_header(name)] + spec_encode_artefact(arts[0])
            + seq![Seq::<char>::empty()] + spec_encode_section(name, arts.drop_first()),
    decreases arts.len(),
{
    if arts.len() == 1 {
        assert(arts.drop_last() =~= Seq::<Artefact>::empty());
        assert(arts.drop_first() =~= Seq::<Artefact>::empty());
        assert(arts.last() == arts[0]);
    } else {
        lemma_encode_section_front(name, arts.drop_last());
        assert(arts.drop_last()[0] == arts[0]);
        assert(arts.drop_last().drop_first() =~= arts.drop_first().drop_last());
        assert(arts.drop_first().len() > 0);
        assert(arts.drop_first().last() == arts.last());
        assert(spec_encode_section(name, arts.drop_first()) == spec_encode_section(
            name,
            arts.drop_first().drop_last(),
        ) + seq![spec_header(name)] + spec_encode_artefact(arts.drop_first().last()) + seq![
            Seq::<char>::empty(),
        ]);
    }
}

proof fn lemma_decode_suffix(ls: Seq<Seq<char>>, pos: int, dp: Seq<Artefact>, fb: Seq<Artefact>)
    requires
        0 <= pos <= ls.len(),
        ls.subrange(pos, ls.len() as int) =~= spec_encode_section("datapack"@, dp)
            + spec_encode_section("fabric"@, fb),
        forall|i: int| 0 <= i < dp.len() ==> artefact_text_ok(#[trigger] dp[i]),
        forall|i: int| 0 <= i < fb.len() ==> artefact_text_ok(#[trigger] fb[i]),
    ensures
        spec_decode_blocks(ls, pos) == Option::Some((recs_of(dp), recs_of(fb))),
    decreases dp.len() + fb.len(),
{
    reveal_strlit("datapack");
    reveal_strlit("fabric");
    reveal_strlit("[[");
    reveal_strlit("]]");
    let suffix = ls.subrange(pos, ls.len() as int);
    if dp.len() > 0 {
        lemma_encode_section_front("datapack"@, dp);
        let block = seq![spec_header("datapack"@)] + spec_encode_artefact(dp[0]) + seq![
            Seq::<char>::empty(),
        ];
        let rest = spec_encode_section("datapack"@, dp.drop_first()) + spec_encode_section(
            "fabric"@,
            fb,
        );
        let ba = seq![spec_header("datapack"@)] + spec_encode_artefact(dp[0]);
        assert(suffix =~= block + rest);
        assert(suffix == block + rest);
        assert(block.len() == 8);
        assert(pos + 8 <= ls.len());
        assert(ls[pos] == suffix[0]);
        assert(suffix[0] == block[0]);
        assert(block[0] == ba[0]);
        assert(ba[0] == spec_header("datapack"@));
        assert forall|j: int| 0 <= j < 6 implies ls.subrange(pos + 1, pos + 7)[j]
            == spec_encode_artefact(dp[0])[j] by {
            assert(ls.subrange(pos + 1, pos + 7)[j] == ls[pos + 1 + j]);
            assert(ls[pos + 1 + j] == suffix[1 + j]);
            assert(suffix[1 + j] == block[1 + j]);
            assert(block[1 + j] == ba[1 + j]);
            assert(ba[1 + j] == spec_encode_artefact(dp[0])[j]);
        };
        assert(ls.subrange(pos + 1, pos + 7) =~= spec_encode_artefact(dp[0]));
        assert(ls[pos + 7] == suffix[7]);
        assert(suffix[7] == block[7]);
        assert(block[7].len() == 0);
        lemma_record_round_trip(dp[0]);
        assert(spec_decode_record(ls.subrange(pos + 1, pos + 7)) == Option::Some(rec_of(dp[0])));
        assert forall|j: int| 0 <= j < rest.len() implies ls.subrange(pos + 8, ls.len() as int)[j]
            == rest[j] by {
            assert(ls.subrange(pos + 8, ls.len() as int)[j] == ls[pos + 8 + j]);
            assert(ls[pos + 8 + j] == suffix[8 + j]);
            assert(suffix[8 + j] == rest[j]);
        };
        assert(ls.subrange(pos + 8, ls.len() as int) =~= rest);
        lemma_decode_suffix(ls, pos + 8, dp.drop_first(), fb);
        assert(recs_of(dp) =~= seq![rec_of(dp[0])] + recs_of(dp.drop_first()));
    } else if fb.len() > 0 {
        lemma_encode_section_front("fabric"@, fb);
        let block = seq![spec_header("fabric"@)] + spec_encode_artefact(fb[0]) + seq![
            Seq::<char>::empty(),
        ];
        let rest = spec_encode_section("fabric"@, fb.drop_first());
        let ba = seq![spec_header("fabric"@)] + spec_encode_artefact(fb[0]);
        assert(suffix =~= block + rest);
        assert(suffix == block + rest);
        assert(block.len() == 8);
        assert(pos + 8 <= ls.len());
        assert(ls[pos] == suffix[0]);
        assert(suffix[0] == block[0]);
        assert(block[0] == ba[0]);
        assert(ba[0] == spec_header("fabric"@));
        assert(spec_header("fabric"@).len() == 10);
        assert(spec_header("datapack"@).len() == 12);
        assert(ls[pos] != spec_header("datapack"@));
        assert forall|j: int| 0 <= j < 6 implies ls.subrange(pos + 1, pos + 7)[j]
            == spec_encode_artefact(fb[0])[j] by {
            assert(ls.subrange(pos + 1, pos + 7)[j] == ls[pos + 1 + j]);
            assert(ls[pos + 1 + j] == suffix[1 + j]);
            assert(suffix[1 + j] == block[1 + j]);
            assert(block[1 + j] == ba[1 + j]);
            assert(ba[1 + j] == spec_encode_artefact(fb[0])[j]);
        };
        assert(ls.subrange(pos + 1, pos + 7) =~= spec_encode_artefact(fb[0]));
        assert(ls[pos + 7] == suffix[7]);
        assert(suffix[7] == block[7]);
        assert(block[7].len() == 0);
        lemma_record_round_trip(fb[0]);
        assert(spec_decode_record(ls.subrange(pos + 1, pos + 7)) == Option::Some(rec_of(fb[0])));
        assert forall|j: int| 0 <= j < rest.len() implies ls.subrange(pos + 8, ls.len() as int)[j]
            == rest[j] by {
            assert(ls.subrange(pos + 8, ls.len() as int)[j] == ls[pos + 8 + j]);
            assert(ls[pos + 8 + j] == suffix[8 + j]);
            assert(suffix[8 + j] == rest[j]);
        };
        assert(spec_encode_section("datapack"@, Seq::empty()) =~= Seq::<Seq<char>>::empty());
        assert(ls.subrange(pos + 8, ls.len() as int) =~= spec_encode_section("datapack"@, Seq::empty())
            + rest);
        lemma_decode_suffix(ls, pos + 8, Seq::empty(), fb.drop_first());
        assert(recs_of(fb) =~= seq![rec_of(fb[0])] + recs_of(fb.drop_first()));
        assert(recs_of(Seq::<Artefact>::empty()) =~= Seq::<
            (Seq<char>, Seq<char>, Seq<char>, Seq<char>, Seq<char>, Seq<char>),
        >::empty());
        assert(recs_of(dp) =~= Seq::<
            (Seq<char>, Seq<char>, Seq<char>, Seq<char>, Seq<char>, Seq<char>),
        >::empty());
    } else {
        assert(suffix.len() == 0);
        assert(pos == ls.len());
        assert(recs_of(dp) =~= Seq::<
            (Seq<char>, Seq<char>, Seq<char>, Seq<char>, Seq<char>, Seq<char>),
        >::empty());
        assert(recs_of(fb) =~= Seq::<
            (Seq<char>, Seq<char>, Seq<char>, Seq<char>, Seq<char>, Seq<char>),
        >::empty());
    }
}

/// Reads a lockfile back from its lines, block by block. The result is
/// exactly what `spec_decode_blocks` reads from the same lines; with
/// `lemma_lockfile_round_trip`, decoding what `encode_lockfile` wrote
/// restores every record of both sections.
pub fn decode_lockfile(lines: &Vec<String>) -> (r: Option<LockfileV1>)
    ensures
        ({
            let lsv = Seq::new(lines@.len() as nat, |i: int| lines@[i]@);
            &&& r is Some <==> spec_decode_blocks(lsv, 0) is Some
            &&& r matches Some(l) ==> spec_decode_blocks(lsv, 0) matches Some(t) && recs_of(
                l.datapack@,
            ) == t.0 && recs_of(l.fabric@) == t.1
        }),
{
    proof {
        reveal_strlit("[[datapack]]");
        reveal_strlit("[[fabric]]");
        reveal_strlit("[[");
        reveal_strlit("]]");
        reveal_strlit("datapack");
        reveal_strlit("fabric");
    }
    let ghost lsv = Seq::new(lines@.len() as nat, |i: int| lines@[i]@);
    proof {
        assert(spec_header("datapack"@) =~= "[[datapack]]"@);
        assert(spec_header("fabric"@) =~= "[[fabric]]"@);
    }
    let mut datapack: Vec<Artefact> = Vec::new();
    let mut fabric: Vec<Artefact> = Vec::new();
    let mut pos: usize = 0;
    loop
        invariant
            pos <= lines@.len(),
            lsv == Seq::new(lines@.len() as nat, |i: int| lines@[i]@),
            spec_header("datapack"@) == "[[datapack]]"@,
            spec_header("fabric"@) == "[[fabric]]"@,
            match spec_decode_blocks(lsv, pos as int) {
                Option::Some(t_rest) => spec_decode_blocks(lsv, 0) matches Some(t_all) && t_all.0
                    == recs_of(datapack@) + t_rest.0 && t_all.1 == recs_of(fabric@) + t_rest.1,
                Option::None => spec_decode_blocks(lsv, 0) is None,
            },
        decreases lines@.len() - pos,
    {
        if pos == lines.len() {
            proof {
                assert(spec_decode_blocks(lsv, pos as int) == Option::Some(
                    (
                        Seq::<(Seq<char>, Seq<char>, Seq<char>, Seq<char>, Seq<char>, Seq<char>)>::empty(),
                        Seq::<(Seq<char>, Seq<char>, Seq<char>, Seq<char>, Seq<char>, Seq<char>)>::empty(),
                    ),
                ));
                assert(recs_of(datapack@) + Seq::<
                    (Seq<char>, Seq<char>, Seq<char>, Seq<char>, Seq<char>, Seq<char>),
                >::empty() =~= recs_of(datapack@));
                assert(recs_of(fabric@) + Seq::<
                    (Seq<char>, Seq<char>, Seq<char>, Seq<char>, Seq<char>, Seq<char>),
                >::empty() =~= recs_of(fabric@));
            }
            return Some(LockfileV1 { datapack, fabric });
        }
        if lines.len() - pos < 8 {
            return None;
        }
        let is_dp = str_eq(lines[pos].as_str(), "[[datapack]]");
        let is_fb = !is_dp && str_eq(lines[pos].as_str(), "[[fabric]]");
        let art = decode_artefact(lines, pos + 1);
        let blank = lines[pos + 7].as_str().is_empty();
        proof {
            assert(lsv[pos as int] == lines@[pos as int]@);
            assert(lsv[pos + 7] == lines@[pos + 7]@);
            assert(Seq::new(6, |i: int| lines@[pos + 1 + i]@) =~= lsv.subrange(pos + 1, pos + 8 - 1));
        }
        let a = match art {
            None => {
                return None;
            },
            Some(a) => a,
        };
        if !blank {
            return None;
        }
        if is_dp {
            let ghost pre = datapack@;
            let ghost t = spec_decode_record(lsv.subrange(pos + 1, pos + 8 - 1))->Some_0;
            datapack.push(a);
            proof {
                assert(rec_of(a) == t);
                assert(recs_of(datapack@) =~= recs_of(pre) + seq![t]);
                lemma_step_assoc(recs_of(pre), t, spec_decode_blocks(lsv, pos + 8));
            }
        } else if is_fb {
            let ghost pre = fabric@;
            let ghost t = spec_decode_record(lsv.subrange(pos + 1, pos + 8 - 1))->Some_0;
            fabric.push(a);
            proof {
                assert(rec_of(a) == t);
                assert(recs_of(fabric@) =~= recs_of(pre) + seq![t]);
                lemma_step_assoc(recs_of(pre), t, spec_decode_blocks(lsv, pos + 8));
            }
        } else {
            return None;
        }
        pos = pos + 8;
    }
}

proof fn lemma_step_assoc(
    done: Seq<(Seq<char>, Seq<char>, Seq<char>, Seq<char>, Seq<char>, Seq<char>)>,
    t: (Seq<char>, Seq<char>, Seq<char>, Seq<char>, Seq<char>, Seq<char>),
    rest: Option<
        (
            Seq<(Seq<char>, Seq<char>, Seq<char>, Seq<char>, Seq<char>, Seq<char>)>,
            Seq<(Seq<char>, Seq<char>, Seq<char>, Seq<char>, Seq<char>, Seq<char>)>,
        ),
    >,
)
    ensures
        rest matches Some(tr) ==> done + (seq![t] + tr.0) =~= (done + seq![t]) + tr.0,
        rest matches Some(tr) ==> done + (seq![t] + tr.1) =~= (done + seq![t]) + tr.1,
{
}

/// The whole lockfile survives the textual round trip: the lines the
/// encoder lays out decode back to exactly the records of its two
/// sections, in order.
pub proof fn lemma_lockfile_round_trip(l: LockfileV1)
    requires
        forall|i: int| 0 <= i < l.datapack@.len() ==> artefact_text_ok(#[trigger] l.datapack@[i]),
        forall|i: int| 0 <= i < l.fabric@.len() ==> artefact_text_ok(#[trigger] l.fabric@[i]),
    ensures
        spec_decode_blocks(spec_encode_lockfile(l), 0) == Option::Some(
            (recs_of(l.datapack@), recs_of(l.fabric@)),
        ),
{
    let ls = spec_encode_lockfile(l);
    assert(ls.subrange(0, ls.len() as int) =~= ls);
    lemma_decode_suffix(ls, 0, l.datapack@, l.fabric@);
}

/// One lock entry survives the textual round trip: the lines that
/// encode it decode to exactly its fields.
pub proof fn lemma_record_round_trip(a: Artefact)
    requires
        artefact_text_ok(a),
    ensures
        spec_decode_record(spec_encode_artefact(a)) matches Some(t) && {
            &&& t.0 == a.project_id@
            &&& t.1 == a.project_slug@
            &&& t.2 == a.version_id@
            &&& t.3 == a.version_number@
            &&& t.4 == a.filename@
            &&& t.5 == a.checksum.0@
        },
{
    lemma_field_line_round_trip("project_id"@, a.project_id@);
    lemma_field_line_round_trip("project_slug"@, a.project_slug@);
    lemma_field_line_round_trip("version_id"@, a.version_id@);
    lemma_field_line_round_trip("version_number"@, a.version_number@);
    lemma_field_line_round_trip("filename"@, a.filename@);
    lemma_field_line_round_trip("checksum"@, a.checksum.0@);
}

} // verus!
