//! The laws of the parser: proof functions stating what holds of every input,
//! over the same spec functions that the executable functions' contracts use.

use vstd::prelude::*;
use crate::cli_args::AttributeName;
use crate::cli_args::EnumString;
use crate::cli_args::FaceColor;
use crate::cli_args::ErrorModel;
use crate::cli_args::spec_apply_attributes;
use crate::cli_args::spec_build_config;
use crate::cli_args::spec_color_opt;
use crate::cli_args::spec_line_number_style;
use crate::cli_args::LineNumberStyleOpt;
use crate::cli_args::spec_join_bar;
use crate::cli_args::spec_lookup;
use crate::cli_args::spec_names;
use crate::cli_args::spec_tryparse;
use crate::cli_args::spec_parse_color_spec;
use crate::config::ConfigModel;
use crate::config::FaceName;
use crate::config::LineNumberStyle;
use crate::config::StyleRecord;
use crate::config::spec_default_style;
use crate::strutil::spec_split;

verus! {

/// Law: a face spec touches exactly the face its first token names. When the
/// attributes apply cleanly, that face's record becomes their result and every
/// other face keeps its record; success of the whole spec is exactly success
/// of the attribute application.
pub proof fn lemma_face_spec_targets_one_face(c: ConfigModel, value: Seq<char>, f: FaceName)
    requires
        c.faces.len() == 4,
        value.len() > 0,
        spec_lookup(FaceName::spec_data(), spec_split(value)[0]) == Some(f),
    ensures
        spec_parse_color_spec(c, value) is Ok <==> spec_apply_attributes(
            f,
            c.faces[f.spec_slot()],
            spec_split(value).drop_first(),
        ) is Ok,
        spec_parse_color_spec(c, value) matches Ok(c2) ==> c2.debug == c.debug && c2.html == c.html
            && c2.line_numbers_style == c.line_numbers_style && c2.faces.len() == c.faces.len()
            && (forall|g: FaceName|
            g != f ==> c2.faces[#[trigger] g.spec_slot()] == c.faces[g.spec_slot()])
            && c2.faces[f.spec_slot()] == spec_apply_attributes(
                f,
                c.faces[f.spec_slot()],
                spec_split(value).drop_first(),
            )->Ok_0,
{
    assert(forall|g: FaceName, h: FaceName|
        #[trigger] g.spec_slot() == #[trigger] h.spec_slot() ==> g == h);
}

/// Applying no tokens at all leaves any style record as it is.
pub proof fn lemma_apply_empty(face: FaceName)
    ensures
        forall|x: StyleRecord| #[trigger] spec_apply_attributes(
            face,
            x,
            Seq::<Seq<char>>::empty(),
        ) == Ok::<StyleRecord, ErrorModel>(x),
{
}

/// Law: every single-token attribute name that resolves applies successfully
/// to any style record, alone.
pub proof fn lemma_valid_attribute_applies(
    face: FaceName,
    s: StyleRecord,
    atok: Seq<char>,
    a: AttributeName,
)
    requires
        spec_lookup(AttributeName::spec_data(), atok) == Some(a),
        !(a is Color),
    ensures
        spec_apply_attributes(face, s, seq![atok]) is Ok,
{
    reveal_with_fuel(spec_apply_attributes, 2);
    assert(seq![atok].drop_first() =~= Seq::<Seq<char>>::empty());
    assert(seq![atok][0] == atok);
    lemma_apply_empty(face);
}

/// Law: a color attribute name that resolves applies successfully to any
/// style record when a valid color value follows it.
pub proof fn lemma_valid_color_attribute_applies(
    face: FaceName,
    s: StyleRecord,
    atok: Seq<char>,
    ctok: Seq<char>,
    a: AttributeName,
)
    requires
        spec_lookup(AttributeName::spec_data(), atok) == Some(a),
        a is Color,
        spec_color_opt(ctok) is Ok,
    ensures
        spec_apply_attributes(face, s, seq![atok, ctok]) is Ok,
{
    reveal_with_fuel(spec_apply_attributes, 2);
    assert(seq![atok, ctok].skip(2) =~= Seq::<Seq<char>>::empty());
    assert(seq![atok, ctok][0] == atok);
    assert(seq![atok, ctok][1] == ctok);
    assert(seq![atok, ctok].len() == 2);
    lemma_apply_empty(face);
}

/// Law: attributes accumulate. Applying `t1 ++ t2` is applying `t2` to the
/// outcome of `t1`, whenever `t1` applies cleanly.
pub proof fn lemma_apply_attributes_append(
    face: FaceName,
    s: StyleRecord,
    t1: Seq<Seq<char>>,
    t2: Seq<Seq<char>>,
)
    requires
        spec_apply_attributes(face, s, t1) is Ok,
    ensures
        spec_apply_attributes(face, s, t1 + t2) == spec_apply_attributes(
            face,
            spec_apply_attributes(face, s, t1)->Ok_0,
            t2,
        ),
    decreases t1.len(),
{
    if t1.len() == 0 {
        assert(t1 + t2 =~= t2);
    } else {
        let toks = t1 + t2;
        assert(toks[0] == t1[0]);
        match spec_lookup(AttributeName::spec_data(), t1[0]) {
            None => {},
            Some(a) => match a {
                AttributeName::Color(kind) => {
                    assert(t1.len() != 1);
                    assert(toks[1] == t1[1]);
                    match spec_color_opt(t1[1]) {
                        Ok(c) => {
                            let s2 = match kind {
                                FaceColor::Foreground => StyleRecord { fg: c, ..s },
                                FaceColor::Background => StyleRecord { bg: c, ..s },
                            };
                            assert(t1.skip(2) + t2 =~= toks.skip(2));
                            lemma_apply_attributes_append(face, s2, t1.skip(2), t2);
                        },
                        Err(_) => {},
                    }
                },
                AttributeName::Italic(b) => {
                    assert(t1.drop_first() + t2 =~= toks.drop_first());
                    lemma_apply_attributes_append(
                        face,
                        StyleRecord { italic: b, ..s },
                        t1.drop_first(),
                        t2,
                    );
                },
                AttributeName::Bold(b) => {
                    assert(t1.drop_first() + t2 =~= toks.drop_first());
                    lemma_apply_attributes_append(
                        face,
                        StyleRecord { bold: b, ..s },
                        t1.drop_first(),
                        t2,
                    );
                },
                AttributeName::Intense(b) => {
                    assert(t1.drop_first() + t2 =~= toks.drop_first());
                    lemma_apply_attributes_append(
                        face,
                        StyleRecord { intense: b, ..s },
                        t1.drop_first(),
                        t2,
                    );
                },
                AttributeName::Underline(b) => {
                    assert(t1.drop_first() + t2 =~= toks.drop_first());
                    lemma_apply_attributes_append(
                        face,
                        StyleRecord { underline: b, ..s },
                        t1.drop_first(),
                        t2,
                    );
                },
                AttributeName::Reset => {
                    assert(t1.drop_first() + t2 =~= toks.drop_first());
                    lemma_apply_attributes_append(face, spec_default_style(), t1.drop_first(), t2);
                },
            },
        }
    }
}

/// Law: each of the four face names resolves to its face.
pub proof fn lemma_face_names_resolve()
    ensures
        spec_lookup(FaceName::spec_data(), "added"@) == Some(FaceName::Added),
        spec_lookup(FaceName::spec_data(), "refine-added"@) == Some(FaceName::RefineAdded),
        spec_lookup(FaceName::spec_data(), "removed"@) == Some(FaceName::Removed),
        spec_lookup(FaceName::spec_data(), "refine-removed"@) == Some(FaceName::RefineRemoved),
{
    reveal_with_fuel(spec_lookup, 5);
    reveal_strlit("added");
    reveal_strlit("refine-added");
    reveal_strlit("removed");
    reveal_strlit("refine-removed");
    assert("added"@.len() == 5);
    assert("refine-added"@.len() == 12);
    assert("removed"@.len() == 7);
    assert("refine-removed"@.len() == 14);
}

/// Law: each of the eleven attribute names resolves to its attribute; in
/// particular `none` is the reset.
pub proof fn lemma_attribute_names_resolve()
    ensures
        spec_lookup(AttributeName::spec_data(), "foreground"@) == Some(
            AttributeName::Color(FaceColor::Foreground),
        ),
        spec_lookup(AttributeName::spec_data(), "background"@) == Some(
            AttributeName::Color(FaceColor::Background),
        ),
        spec_lookup(AttributeName::spec_data(), "italic"@) == Some(AttributeName::Italic(true)),
        spec_lookup(AttributeName::spec_data(), "noitalic"@) == Some(AttributeName::Italic(false)),
        spec_lookup(AttributeName::spec_data(), "bold"@) == Some(AttributeName::Bold(true)),
        spec_lookup(AttributeName::spec_data(), "nobold"@) == Some(AttributeName::Bold(false)),
        spec_lookup(AttributeName::spec_data(), "intense"@) == Some(AttributeName::Intense(true)),
        spec_lookup(AttributeName::spec_data(), "nointense"@) == Some(
            AttributeName::Intense(false),
        ),
        spec_lookup(AttributeName::spec_data(), "underline"@) == Some(
            AttributeName::Underline(true),
        ),
        spec_lookup(AttributeName::spec_data(), "nounderline"@) == Some(
            AttributeName::Underline(false),
        ),
        spec_lookup(AttributeName::spec_data(), "none"@) == Some(AttributeName::Reset),
{
    reveal_strlit("foreground");
    reveal_strlit("background");
    reveal_strlit("italic");
    reveal_strlit("noitalic");
    reveal_strlit("bold");
    reveal_strlit("nobold");
    reveal_strlit("intense");
    reveal_strlit("nointense");
    reveal_strlit("underline");
    reveal_strlit("nounderline");
    reveal_strlit("none");
    reveal_with_fuel(spec_lookup, 12);
    assert("foreground"@.len() == 10 && "foreground"@[0] == 'f');
    assert("background"@.len() == 10 && "background"@[0] == 'b');
    assert("italic"@.len() == 6 && "italic"@[0] == 'i');
    assert("noitalic"@.len() == 8 && "noitalic"@[0] == 'n');
    assert("bold"@.len() == 4 && "bold"@[0] == 'b');
    assert("nobold"@.len() == 6 && "nobold"@[0] == 'n');
    assert("intense"@.len() == 7 && "intense"@[0] == 'i');
    assert("nointense"@.len() == 9 && "nointense"@[0] == 'n');
    assert("underline"@.len() == 9 && "underline"@[0] == 'u');
    assert("nounderline"@.len() == 11 && "nounderline"@[0] == 'n');
    assert("none"@.len() == 4 && "none"@[0] == 'n');
}

/// Law: both line-number style names resolve to their style.
pub proof fn lemma_style_names_resolve()
    ensures
        spec_lookup(LineNumberStyleOpt::spec_data(), "aligned"@) == Some(
            LineNumberStyleOpt(LineNumberStyle::Aligned),
        ),
        spec_lookup(LineNumberStyleOpt::spec_data(), "compact"@) == Some(
            LineNumberStyleOpt(LineNumberStyle::Compact),
        ),
{
    reveal_strlit("aligned");
    reveal_strlit("compact");
    reveal_with_fuel(spec_lookup, 3);
    assert("aligned"@[0] == 'a');
    assert("compact"@[0] == 'c');
}

/// Law: the reset token `none`, coming after attributes that applied cleanly,
/// discards everything they accumulated: the tokens after it apply to the
/// default style.
pub proof fn lemma_reset_clears(
    face: FaceName,
    s: StyleRecord,
    t1: Seq<Seq<char>>,
    t2: Seq<Seq<char>>,
)
    requires
        spec_apply_attributes(face, s, t1) is Ok,
    ensures
        spec_apply_attributes(face, s, t1 + seq!["none"@] + t2) == spec_apply_attributes(
            face,
            spec_default_style(),
            t2,
        ),
{
    lemma_attribute_names_resolve();
    let mid = seq!["none"@] + t2;
    assert(t1 + seq!["none"@] + t2 =~= t1 + mid);
    lemma_apply_attributes_append(face, s, t1, mid);
    assert(mid[0] == "none"@);
    assert(mid.drop_first() =~= t2);
}

/// Law: a color attribute with no following token is a missing-value error
/// naming the face being configured, whatever applied before it.
pub proof fn lemma_missing_color_value(
    face: FaceName,
    s: StyleRecord,
    t1: Seq<Seq<char>>,
    ctok: Seq<char>,
    a: AttributeName,
)
    requires
        spec_apply_attributes(face, s, t1) is Ok,
        spec_lookup(AttributeName::spec_data(), ctok) == Some(a),
        a is Color,
    ensures
        spec_apply_attributes(face, s, t1.push(ctok)) == Err::<StyleRecord, ErrorModel>(
            ErrorModel::MissingValue(face),
        ),
{
    assert(t1.push(ctok) =~= t1 + seq![ctok]);
    lemma_apply_attributes_append(face, s, t1, seq![ctok]);
    assert(seq![ctok][0] == ctok);
}

/// `sub` stands verbatim in `m` at position `i`.
pub open spec fn occurs_at(m: Seq<char>, sub: Seq<char>, i: int) -> bool {
    0 <= i && i + sub.len() <= m.len() && m.subrange(i, i + sub.len()) == sub
}

/// Where the `k`-th name begins inside the `|`-joined name list.
pub open spec fn join_pos(names: Seq<Seq<char>>, k: int) -> int
    decreases k,
{
    if k <= 0 {
        0
    } else {
        join_pos(names, k - 1) + names[k - 1].len() + 1
    }
}

proof fn lemma_join_pos_prefix(a: Seq<Seq<char>>, b: Seq<Seq<char>>, k: int)
    requires
        0 <= k <= a.len(),
        k <= b.len(),
        forall|i: int| 0 <= i < k ==> a[i] == b[i],
    ensures
        join_pos(a, k) == join_pos(b, k),
    decreases k,
{
    if k > 0 {
        lemma_join_pos_prefix(a, b, k - 1);
    }
}

proof fn lemma_join_bar_len(names: Seq<Seq<char>>)
    requires
        names.len() >= 1,
    ensures
        spec_join_bar(names).len() == join_pos(names, names.len() - 1) + names.last().len(),
    decreases names.len(),
{
    reveal_strlit("|");
    if names.len() > 1 {
        lemma_join_bar_len(names.drop_last());
        lemma_join_pos_prefix(names, names.drop_last(), names.len() - 2);
    }
}

/// Law: within the joined name list, names keep their declaration order: an
/// earlier name begins at an earlier position.
pub proof fn lemma_join_pos_increasing(names: Seq<Seq<char>>, k1: int, k2: int)
    requires
        0 <= k1 < k2,
    ensures
        join_pos(names, k1) < join_pos(names, k2),
    decreases k2,
{
    if k1 < k2 - 1 {
        lemma_join_pos_increasing(names, k1, k2 - 1);
    }
}

proof fn lemma_join_bar_positions(names: Seq<Seq<char>>, k: int)
    requires
        0 <= k < names.len(),
    ensures
        occurs_at(spec_join_bar(names), names[k], join_pos(names, k)),
    decreases names.len(),
{
    reveal_strlit("|");
    let j = spec_join_bar(names);
    if names.len() == 1 {
        assert(j.subrange(0, names[0].len() as int) =~= names[0]);
    } else {
        let n = names.len() as int;
        let pre = names.drop_last();
        let jp = spec_join_bar(pre);
        if k < n - 1 {
            lemma_join_bar_positions(pre, k);
            lemma_join_pos_prefix(names, pre, k);
            let p = join_pos(names, k);
            assert(pre[k] == names[k]);
            assert(j.subrange(p, p + names[k].len()) =~= jp.subrange(p, p + names[k].len()));
        } else {
            lemma_join_bar_len(pre);
            lemma_join_pos_prefix(names, pre, n - 2);
            let p = join_pos(names, n - 1);
            assert(p == jp.len() + 1);
            assert(j.len() == jp.len() + 1 + names[k].len());
            assert(j.subrange(p, p + names[k].len()) =~= names[k]);
        }
    }
}

/// Where the offending token stands in a resolution error message.
pub open spec fn token_pos() -> int {
    "got '"@.len() as int
}

/// Where the `k`-th valid name stands in the resolution error message for the
/// offending token `s`.
pub open spec fn name_pos(s: Seq<char>, names: Seq<Seq<char>>, k: int) -> int {
    "got '"@.len() + s.len() + "', expected "@.len() + join_pos(names, k)
}

/// Law: resolving a token that matches no table entry fails, and the message
/// holds the offending token and every valid name of the table, each at its
/// position, the names in declaration order.
pub proof fn lemma_unknown_name_message<T: EnumString>(s: Seq<char>)
    requires
        spec_lookup(T::spec_data(), s) is None,
    ensures
        spec_tryparse::<T>(s) is Err,
        occurs_at(spec_tryparse::<T>(s)->Err_0, s, token_pos()),
        forall|k: int|
            0 <= k < T::spec_data().len() ==> occurs_at(
                spec_tryparse::<T>(s)->Err_0,
                spec_names(T::spec_data())[k],
                #[trigger] name_pos(s, spec_names(T::spec_data()), k),
            ),
        forall|k1: int, k2: int|
            0 <= k1 < k2 < T::spec_data().len() ==> #[trigger] name_pos(
                s,
                spec_names(T::spec_data()),
                k1,
            ) < #[trigger] name_pos(s, spec_names(T::spec_data()), k2),
{
    let names = spec_names(T::spec_data());
    let m = spec_tryparse::<T>(s)->Err_0;
    assert(m.subrange(token_pos(), token_pos() + s.len()) =~= s);
    assert forall|k: int| 0 <= k < T::spec_data().len() implies occurs_at(
        m,
        names[k],
        name_pos(s, names, k),
    ) by {
        lemma_join_bar_positions(names, k);
        let p = join_pos(names, k);
        let off = "got '"@.len() + s.len() + "', expected "@.len();
        assert(m.subrange(off + p, off + p + names[k].len()) =~= spec_join_bar(names).subrange(
            p,
            p + names[k].len(),
        ));
    };
    assert forall|k1: int, k2: int| 0 <= k1 < k2 < T::spec_data().len() implies name_pos(
        s,
        names,
        k1,
    ) < name_pos(s, names, k2) by {
        lemma_join_pos_increasing(names, k1, k2);
    };
}

/// Law: of the values given for the line-number flag only the last counts;
/// no value at all resolves to the compact style.
pub proof fn lemma_line_number_style_last_wins(values: Seq<Seq<char>>)
    ensures
        values.len() == 0 ==> spec_line_number_style(values) == Ok::<LineNumberStyle, ErrorModel>(
            LineNumberStyle::Compact,
        ),
        values.len() > 0 ==> spec_line_number_style(values) == spec_line_number_style(
            seq![values.last()],
        ),
{
    if values.len() > 0 {
        assert(seq![values.last()].last() == values.last());
    }
}

/// Law: when the line-number flag was not given at all, the built
/// configuration leaves the line-number style unset.
pub proof fn lemma_line_numbers_unset(debug: bool, html: bool, colors: Seq<Seq<char>>)
    ensures
        spec_build_config(debug, html, None, colors) matches Ok(c) ==> c.line_numbers_style
            is None,
{
    let base = ConfigModel { debug, html, ..crate::config::spec_default_config() };
    lemma_color_args_keep_line_numbers(base, colors);
}

/// Applying `--colors` values never touches the line-number style or the two
/// toggles.
pub proof fn lemma_color_args_keep_line_numbers(c: ConfigModel, colors: Seq<Seq<char>>)
    ensures
        crate::cli_args::spec_parse_color_args(c, colors) matches Ok(c2) ==> c2.line_numbers_style
            == c.line_numbers_style && c2.debug == c.debug && c2.html == c.html,
    decreases colors.len(),
{
    if colors.len() > 0 {
        match spec_parse_color_spec(c, colors[0]) {
            Ok(c2) => {
                lemma_color_args_keep_line_numbers(c2, colors.drop_first());
            },
            Err(_) => {},
        }
    }
}

} // verus!
