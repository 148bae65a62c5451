use vstd::prelude::*;
use crate::text::{
    plain_seq, is_blank, is_space_char, pad_to, repeat_char, pad_line_to, char_row, lemma_pad_plain,
    lemma_plain_concat, lemma_repeat_elems, lemma_repeat_plain,
};
use crate::ansi::{
    strip_of, single_line, lemma_kept_single, cyan_line, framework_header_styled,
    outcome_line_error_styled, outcome_line_warn_styled, outcome_line_pass_styled,
};
use crate::logger::{Logger, ConsoleLine, bound_view};
use crate::text::{kept_lines, trim_end};

verus! {

/// One structured entry of a verification outcome: a full message and the
/// short form a summary surfaces.
pub struct VerificationMessage {
    pub message: String,
    pub short_message: String,
}

pub struct MessageView {
    pub message: Seq<char>,
    pub short_message: Seq<char>,
}

impl View for VerificationMessage {
    type V = MessageView;

    open spec fn view(&self) -> MessageView {
        MessageView { message: self.message@, short_message: self.short_message@ }
    }
}

/// The result of verifying one test: the framework it belongs to, the test
/// type's name, and the errors and warnings found. An outcome with any error
/// is reported as an error, whatever its warnings; it passes only when both
/// lists are empty.
pub struct Verification {
    pub framework_name: String,
    pub test_type: String,
    pub warnings: Vec<VerificationMessage>,
    pub errors: Vec<VerificationMessage>,
}

pub struct VerificationView {
    pub framework_name: Seq<char>,
    pub test_type: Seq<char>,
    pub warnings: Seq<MessageView>,
    pub errors: Seq<MessageView>,
}

impl View for Verification {
    type V = VerificationView;

    open spec fn view(&self) -> VerificationView {
        VerificationView {
            framework_name: self.framework_name@,
            test_type: self.test_type@,
            warnings: self.warnings@.map_values(|m: VerificationMessage| m@),
            errors: self.errors@.map_values(|m: VerificationMessage| m@),
        }
    }
}

pub open spec fn verification_views(vs: Seq<Verification>) -> Seq<VerificationView> {
    vs.map_values(|v: Verification| v@)
}

/// The left column of every outcome line: a bar padded to eight characters.
pub open spec fn lead_column() -> Seq<char> {
    pad_to("|"@, 8)
}

/// The test type column, padded to thirteen characters.
pub open spec fn type_column(test_type: Seq<char>) -> Seq<char> {
    pad_to(test_type, 13)
}

/// The summary line rendered for one outcome: ERROR with the first error's
/// short message when any error is present, otherwise WARN with the first
/// warning's short message when any warning is present, otherwise PASS with no
/// trailing message.
pub open spec fn outcome_line(v: VerificationView) -> Seq<char> {
    if v.errors.len() > 0 {
        lead_column() + type_column(v.test_type) + ": "@ + "ERROR"@ + " - "@
            + v.errors[0].short_message
    } else if v.warnings.len() > 0 {
        lead_column() + type_column(v.test_type) + ": "@ + "WARN "@ + " - "@
            + v.warnings[0].short_message
    } else {
        lead_column() + type_column(v.test_type) + ": "@ + "PASS"@
    }
}

/// The header line of one framework's group.
pub open spec fn framework_header(name: Seq<char>) -> Seq<char> {
    "| "@ + name
}

pub open spec fn border_line() -> Seq<char> {
    repeat_char('=', 79)
}

pub open spec fn divider_line() -> Seq<char> {
    repeat_char('-', 79)
}

pub open spec fn title_line() -> Seq<char> {
    "Verification Summary"@
}

/// The distinct framework names of `vs`, in first-occurrence order.
pub open spec fn framework_names(vs: Seq<VerificationView>) -> Seq<Seq<char>>
    decreases vs.len(),
{
    if vs.len() == 0 {
        Seq::<Seq<char>>::empty()
    } else {
        let front = framework_names(vs.drop_last());
        if front.contains(vs.last().framework_name) {
            front
        } else {
            front.push(vs.last().framework_name)
        }
    }
}

/// The outcomes of `vs` recorded for the framework `name`, in the order they
/// were supplied.
pub open spec fn group_of(vs: Seq<VerificationView>, name: Seq<char>) -> Seq<VerificationView>
    decreases vs.len(),
{
    if vs.len() == 0 {
        Seq::<VerificationView>::empty()
    } else {
        let front = group_of(vs.drop_last(), name);
        if vs.last().framework_name == name {
            front.push(vs.last())
        } else {
            front
        }
    }
}

/// The block of lines for one framework: its header, then one line per
/// outcome.
pub open spec fn group_lines(vs: Seq<VerificationView>, name: Seq<char>) -> Seq<Seq<char>> {
    seq![framework_header(name)] + group_of(vs, name).map_values(|v: VerificationView| outcome_line(v))
}

pub open spec fn groups_lines(vs: Seq<VerificationView>, names: Seq<Seq<char>>) -> Seq<Seq<char>>
    decreases names.len(),
{
    if names.len() == 0 {
        Seq::<Seq<char>>::empty()
    } else {
        groups_lines(vs, names.drop_last()) + group_lines(vs, names.last())
    }
}

/// The whole summary, line by line: a border, the title, a divider, each
/// framework's block, and a closing border.
pub open spec fn summary_lines(vs: Seq<VerificationView>) -> Seq<Seq<char>> {
    seq![border_line(), title_line(), divider_line()] + groups_lines(vs, framework_names(vs))
        + seq![border_line()]
}

/// The parts of an outcome that the summary surfaces are printable text.
pub open spec fn plain_verification(v: VerificationView) -> bool {
    &&& plain_seq(v.framework_name)
    &&& plain_seq(v.test_type)
    &&& (v.errors.len() > 0 ==> plain_seq(v.errors[0].short_message))
    &&& (v.warnings.len() > 0 ==> plain_seq(v.warnings[0].short_message))
}

pub open spec fn plain_report(vs: Seq<VerificationView>) -> bool {
    forall|i: int| 0 <= i < vs.len() ==> plain_verification(#[trigger] vs[i])
}

/// One framework's group: its name and its outcomes in supplied order.
pub struct FrameworkGroup {
    pub name: String,
    pub outcomes: Vec<Verification>,
}

pub open spec fn group_names_of(groups: Seq<FrameworkGroup>) -> Seq<Seq<char>> {
    groups.map_values(|g: FrameworkGroup| g.name@)
}

/// The groups model the grouping of `all` by framework name: the names are the
/// distinct framework names in first-occurrence order, and each group holds
/// exactly that framework's outcomes in supplied order.
pub open spec fn groups_model(groups: Seq<FrameworkGroup>, all: Seq<VerificationView>) -> bool {
    &&& group_names_of(groups) == framework_names(all)
    &&& forall|k: int|
        0 <= k < groups.len() ==> (#[trigger] groups[k]).outcomes@.map_values(
            |v: Verification| v@,
        ) == group_of(all, groups[k].name@)
}

/// Groups the outcomes by framework name, frameworks in first-occurrence
/// order, each group's outcomes in supplied order.
pub fn group_by_framework(verifications: Vec<Verification>) -> (groups: Vec<FrameworkGroup>)
    ensures
        groups_model(groups@, verification_views(verifications@)),
{
    let ghost all = verification_views(verifications@);
    let mut rest = verifications;
    let mut groups: Vec<FrameworkGroup> = Vec::new();
    let ghost mut done: int = 0;
    proof {
        assert(rest@.map_values(|v: Verification| v@) =~= all.subrange(0, all.len() as int));
        assert(group_names_of(groups@) =~= framework_names(all.subrange(0, 0)));
    }
    while rest.len() > 0
        invariant
            0 <= done <= all.len(),
            all == verification_views(verifications@),
            rest@.map_values(|v: Verification| v@) == all.subrange(done, all.len() as int),
            group_names_of(groups@) == framework_names(all.subrange(0, done)),
            forall|k: int|
                0 <= k < groups@.len() ==> (#[trigger] groups@[k]).outcomes@.map_values(
                    |v: Verification| v@,
                ) == group_of(all.subrange(0, done), groups@[k].name@),
            forall|k1: int, k2: int|
                0 <= k1 < k2 < groups@.len() ==> (#[trigger] groups@[k1]).name@ != (
                #[trigger] groups@[k2]).name@,
        decreases rest@.len(),
    {
        let ghost prefix = all.subrange(0, done);
        let ghost names = framework_names(prefix);
        let ghost rest_old = rest@;
        proof {
            assert(rest_old.map_values(|v: Verification| v@) == all.subrange(
                done,
                all.len() as int,
            ));
            assert(rest_old.map_values(|v: Verification| v@)[0] == all.subrange(
                done,
                all.len() as int,
            )[0]);
            assert(all.subrange(done, all.len() as int)[0] == all[done]);
            assert(rest_old[0]@ == all[done]);
        }
        let v = rest.remove(0);
        let ghost vv = v@;
        proof {
            assert(v == rest_old[0]);
            assert(vv == all[done]);
            assert(rest@ == rest_old.subrange(1, rest_old.len() as int));
            assert forall|k: int| 0 <= k < rest@.len() implies #[trigger] rest@[k]@ == all[done + 1
                + k] by {
                assert(rest@[k] == rest_old[k + 1]);
                assert(rest_old.map_values(|v: Verification| v@)[k + 1] == rest_old[k + 1]@);
                assert(all.subrange(done, all.len() as int)[k + 1] == all[done + 1 + k]);
            }
            assert(rest@.map_values(|v: Verification| v@) =~= all.subrange(
                done + 1,
                all.len() as int,
            ));
            assert(all.subrange(0, done + 1).drop_last() =~= prefix);
            assert(all.subrange(0, done + 1).last() == vv);
        }
        // look for an existing group with this framework's name
        let mut j: usize = 0;
        loop
            invariant
                0 <= j <= groups@.len(),
                vv == v@,
                forall|k: int| 0 <= k < j ==> (#[trigger] groups@[k]).name@ != vv.framework_name,
                group_names_of(groups@) == names,
            ensures
                0 <= j <= groups@.len(),
                j < groups@.len() ==> groups@[j as int].name@ == vv.framework_name,
                j == groups@.len() ==> forall|k: int|
                    0 <= k < groups@.len() ==> (#[trigger] groups@[k]).name@ != vv.framework_name,
            decreases groups@.len() - j,
        {
            if j == groups.len() {
                break ;
            }
            let same = groups[j].name.eq(&v.framework_name);
            proof {
                assert(same == (groups@[j as int].name@ == vv.framework_name));
            }
            if same {
                break ;
            }
            j = j + 1;
        }
        proof {
            assert forall|k: int| 0 <= k < names.len() implies #[trigger] names[k]
                == groups@[k].name@ by {
                assert(group_names_of(groups@)[k] == groups@[k].name@);
            }
            if j < groups@.len() {
                assert(names[j as int] == vv.framework_name);
                assert(names.contains(vv.framework_name));
            } else {
                assert forall|k: int| 0 <= k < names.len() implies #[trigger] names[k]
                    != vv.framework_name by {
                    assert(names[k] == groups@[k].name@);
                }
                assert(!names.contains(vv.framework_name));
            }
        }
        if j < groups.len() {
            let mut g = groups.remove(j);
            g.outcomes.push(v);
            let ghost gnew = g;
            groups.insert(j, g);
            proof {
                let prefix2 = all.subrange(0, done + 1);
                assert(framework_names(prefix2) == names);
                assert(group_names_of(groups@) =~= names);
                assert forall|k: int| 0 <= k < groups@.len() implies (
                #[trigger] groups@[k]).outcomes@.map_values(|v: Verification| v@) == group_of(
                    prefix2,
                    groups@[k].name@,
                ) by {
                    if k == j as int {
                        assert(groups@[k] == gnew);
                        assert(gnew.outcomes@.map_values(|v: Verification| v@) =~= group_of(
                            prefix,
                            gnew.name@,
                        ).push(vv));
                        assert(group_of(prefix2, gnew.name@) == group_of(prefix, gnew.name@).push(
                            vv,
                        ));
                    } else {
                        assert(groups@[k].name@ != vv.framework_name);
                        assert(group_of(prefix2, groups@[k].name@) == group_of(
                            prefix,
                            groups@[k].name@,
                        ));
                    }
                }
                done = done + 1;
            }
        } else {
            let name = v.framework_name.clone();
            let mut outcomes: Vec<Verification> = Vec::new();
            outcomes.push(v);
            let g = FrameworkGroup { name, outcomes };
            let ghost gs = groups@;
            groups.push(g);
            proof {
                let prefix2 = all.subrange(0, done + 1);
                assert(framework_names(prefix2) == names.push(vv.framework_name));
                assert(group_names_of(groups@) =~= names.push(vv.framework_name));
                assert forall|k: int| 0 <= k < groups@.len() implies (
                #[trigger] groups@[k]).outcomes@.map_values(|v: Verification| v@) == group_of(
                    prefix2,
                    groups@[k].name@,
                ) by {
                    if k < gs.len() {
                        assert(groups@[k] == gs[k]);
                        assert(groups@[k].name@ != vv.framework_name);
                        assert(group_of(prefix2, groups@[k].name@) == group_of(
                            prefix,
                            groups@[k].name@,
                        ));
                    } else {
                        assert(groups@[k] == g);
                        lemma_group_of_absent(prefix, vv.framework_name);
                        assert(g.outcomes@.map_values(|v: Verification| v@) =~= Seq::<
                            VerificationView,
                        >::empty().push(vv));
                        assert(group_of(prefix2, vv.framework_name) == group_of(
                            prefix,
                            vv.framework_name,
                        ).push(vv));
                    }
                }
                done = done + 1;
            }
        }
    }
    proof {
        assert(all.subrange(done, all.len() as int).len() == 0);
        assert(done == all.len());
        assert(all.subrange(0, all.len() as int) =~= all);
    }
    groups
}

/// A framework that never occurs in `vs` has an empty group.
proof fn lemma_group_of_absent(vs: Seq<VerificationView>, name: Seq<char>)
    requires
        !framework_names(vs).contains(name),
    ensures
        group_of(vs, name) == Seq::<VerificationView>::empty(),
    decreases vs.len(),
{
    if vs.len() > 0 {
        let front_names = framework_names(vs.drop_last());
        if front_names.contains(name) {
            assert(framework_names(vs).contains(name)) by {
                if front_names.contains(vs.last().framework_name) {
                    assert(framework_names(vs) == front_names);
                } else {
                    let i = choose|i: int|
                        0 <= i < front_names.len() && front_names[i] == name;
                    assert(framework_names(vs)[i] == name);
                }
            }
        }
        lemma_group_of_absent(vs.drop_last(), name);
        if vs.last().framework_name == name {
            assert(framework_names(vs).contains(name)) by {
                if front_names.contains(name) {
                } else {
                    assert(framework_names(vs).last() == name);
                }
            }
        }
    }
}


/// An element of `framework_names(vs)` is the framework name of some outcome.
proof fn lemma_framework_names_elem(vs: Seq<VerificationView>, j: int)
    requires
        0 <= j < framework_names(vs).len(),
    ensures
        exists|i: int| 0 <= i < vs.len() && framework_names(vs)[j] == (#[trigger] vs[i]).framework_name,
    decreases vs.len(),
{
    let front = framework_names(vs.drop_last());
    if front.contains(vs.last().framework_name) || j < front.len() {
        lemma_framework_names_elem(vs.drop_last(), j);
        let i = choose|i: int|
            0 <= i < vs.drop_last().len() && framework_names(vs.drop_last())[j] == (#[trigger] vs.drop_last()[i]).framework_name;
        assert(vs.drop_last()[i] == vs[i]);
    } else {
        assert(framework_names(vs)[j] == vs[vs.len() - 1].framework_name);
    }
}

/// An element of a framework's group is one of the supplied outcomes.
proof fn lemma_group_elem(vs: Seq<VerificationView>, name: Seq<char>, j: int)
    requires
        0 <= j < group_of(vs, name).len(),
    ensures
        exists|i: int| 0 <= i < vs.len() && group_of(vs, name)[j] == vs[i],
    decreases vs.len(),
{
    let front = group_of(vs.drop_last(), name);
    if vs.last().framework_name == name && j == front.len() {
        assert(group_of(vs, name)[j] == vs[vs.len() - 1]);
    } else {
        lemma_group_elem(vs.drop_last(), name, j);
        let i = choose|i: int| 0 <= i < vs.drop_last().len() && group_of(vs.drop_last(), name)[j] == vs.drop_last()[i];
        assert(vs.drop_last()[i] == vs[i]);
    }
}

/// Renders one outcome's styled summary line: its stripped form is exactly
/// `outcome_line` of the outcome.
fn outcome_styled(v: &Verification) -> (r: String)
    ensures
        plain_verification(v@) ==> strip_of(r@) == outcome_line(v@) && single_line(r@),
{
    let lead = pad_line_to("|", 8);
    let ty = pad_line_to(v.test_type.as_str(), 13);
    proof {
        reveal_strlit("|");
        reveal_strlit(": ");
        reveal_strlit(" - ");
        reveal_strlit("ERROR");
        reveal_strlit("WARN ");
        reveal_strlit("PASS");
        assert(plain_seq("|"@));
        assert(plain_seq(": "@));
        assert(plain_seq(" - "@));
        assert(plain_seq("ERROR"@));
        assert(plain_seq("WARN "@));
        assert(plain_seq("PASS"@));
        lemma_pad_plain("|"@, 8);
        assert(lead@ == lead_column());
        assert(lead_column()[0] == '|');
        assert(!is_space_char('|'));
        assert(!is_blank(lead@));
        if plain_verification(v@) {
            lemma_pad_plain(v@.test_type, 13);
        }
        assert(ty@ == type_column(v@.test_type));
    }
    if v.errors.len() > 0 {
        let mut tail = " - ".to_owned();
        tail.append(v.errors[0].short_message.as_str());
        proof {
            assert(v.errors@[0]@ == v@.errors[0]);
            assert(tail@ == " - "@ + v@.errors[0].short_message);
            if plain_verification(v@) {
                lemma_plain_concat(" - "@, v@.errors[0].short_message);
            }
        }
        let r = outcome_line_error_styled(lead.as_str(), ty.as_str(), "ERROR", tail.as_str());
        proof {
            if plain_verification(v@) {
                assert(lead@ + ty@ + ": "@ + "ERROR"@ + tail@ =~= outcome_line(v@));
            }
        }
        r
    } else if v.warnings.len() > 0 {
        let mut tail = " - ".to_owned();
        tail.append(v.warnings[0].short_message.as_str());
        proof {
            assert(v.warnings@[0]@ == v@.warnings[0]);
            assert(tail@ == " - "@ + v@.warnings[0].short_message);
            if plain_verification(v@) {
                lemma_plain_concat(" - "@, v@.warnings[0].short_message);
            }
        }
        let r = outcome_line_warn_styled(lead.as_str(), ty.as_str(), "WARN ", tail.as_str());
        proof {
            if plain_verification(v@) {
                assert(lead@ + ty@ + ": "@ + "WARN "@ + tail@ =~= outcome_line(v@));
            }
        }
        r
    } else {
        let r = outcome_line_pass_styled(lead.as_str(), ty.as_str(), "PASS");
        proof {
            if plain_verification(v@) {
                assert(v@.errors.len() == 0 && v@.warnings.len() == 0);
                assert(lead@ + ty@ + ": "@ + "PASS"@ =~= outcome_line(v@));
            }
        }
        r
    }
}

/// Renders the whole summary as styled lines, one per line of
/// `summary_lines`: for a plain report, each styled line strips to exactly the
/// corresponding summary line.
#[verifier::rlimit(80)]
fn summary_styled(groups: &Vec<FrameworkGroup>, Ghost(all): Ghost<Seq<VerificationView>>) -> (r:
    Vec<String>)
    requires
        groups_model(groups@, all),
    ensures
        r@.len() == summary_lines(all).len(),
        plain_report(all) ==> forall|i: int|
            0 <= i < r@.len() ==> strip_of((#[trigger] r@[i])@) == summary_lines(all)[i]
                && single_line(r@[i]@),
{
    let ghost names = framework_names(all);
    let ghost lines = summary_lines(all);
    let border = char_row('=', 79);
    let divider = char_row('-', 79);
    proof {
        lemma_repeat_elems('=', 79);
        lemma_repeat_elems('-', 79);
        lemma_repeat_plain('=', 79);
        lemma_repeat_plain('-', 79);
        assert(border_line()[0] == '=');
        assert(!is_space_char(border_line()[0]));
        assert(!is_blank(border_line()));
        assert(divider_line()[0] == '-');
        assert(!is_space_char(divider_line()[0]));
        assert(!is_blank(divider_line()));
        reveal_strlit("Verification Summary");
        assert(plain_seq(title_line()));
        assert(title_line()[0] == 'V');
        assert(!is_space_char('V'));
        assert(!is_blank(title_line()));
    }
    let mut r: Vec<String> = Vec::new();
    let s0 = cyan_line(border.as_str());
    r.push(s0);
    let s1 = cyan_line("Verification Summary");
    r.push(s1);
    let s2 = cyan_line(divider.as_str());
    r.push(s2);
    let ghost pre3 = seq![border_line(), title_line(), divider_line()];
    proof {
        assert(r@.len() == 3);
        if plain_report(all) {
            assert(strip_of(r@[0]@) == border_line());
            assert(strip_of(r@[1]@) == title_line());
            assert(strip_of(r@[2]@) == divider_line());
        }
    }
    let mut gi: usize = 0;
    while gi < groups.len()
        invariant
            groups_model(groups@, all),
            names == framework_names(all),
            0 <= gi <= groups@.len(),
            groups@.len() == names.len(),
            pre3 == seq![border_line(), title_line(), divider_line()],
            r@.len() == (pre3 + groups_lines(all, names.subrange(0, gi as int))).len(),
            plain_report(all) ==> forall|i: int|
                0 <= i < r@.len() ==> strip_of((#[trigger] r@[i])@) == (pre3 + groups_lines(
                    all,
                    names.subrange(0, gi as int),
                ))[i] && single_line(r@[i]@),
        decreases groups@.len() - gi,
    {
        let ghost cur0 = pre3 + groups_lines(all, names.subrange(0, gi as int));
        let g = &groups[gi];
        proof {
            assert(group_names_of(groups@)[gi as int] == g.name@);
            assert(g.name@ == names[gi as int]);
            if plain_report(all) {
                lemma_framework_names_elem(all, gi as int);
                let i = choose|i: int|
                    0 <= i < all.len() && names[gi as int] == (#[trigger] all[i]).framework_name;
                assert(plain_verification(all[i]));
                assert(plain_seq(g.name@));
            }
        }
        let header = framework_header_styled(g.name.as_str());
        r.push(header);
        let ghost cur = cur0.push(framework_header(names[gi as int]));
        proof {
            if plain_report(all) {
                assert forall|i: int| 0 <= i < r@.len() implies strip_of((#[trigger] r@[i])@)
                    == cur[i] && single_line(r@[i]@) by {
                    if i < cur0.len() {
                        assert(r@[i] == r@.subrange(0, cur0.len() as int)[i]);
                    }
                }
            }
        }
        let ghost grp = group_of(all, names[gi as int]);
        let mut oi: usize = 0;
        proof {
            assert(g.outcomes@.map_values(|v: Verification| v@) == grp);
            assert(cur =~= cur0 + seq![framework_header(names[gi as int])] + grp.subrange(
                0,
                0,
            ).map_values(|v: VerificationView| outcome_line(v)));
        }
        while oi < g.outcomes.len()
            invariant
                groups_model(groups@, all),
                names == framework_names(all),
                0 <= gi < groups@.len(),
                g == groups@[gi as int],
                g.outcomes@.map_values(|v: Verification| v@) == grp,
                grp == group_of(all, names[gi as int]),
                0 <= oi <= g.outcomes@.len(),
                pre3 == seq![border_line(), title_line(), divider_line()],
                cur0 == pre3 + groups_lines(all, names.subrange(0, gi as int)),
                r@.len() == (cur0 + seq![framework_header(names[gi as int])] + grp.subrange(
                    0,
                    oi as int,
                ).map_values(|v: VerificationView| outcome_line(v))).len(),
                plain_report(all) ==> forall|i: int|
                    0 <= i < r@.len() ==> strip_of((#[trigger] r@[i])@) == (cur0 + seq![
                        framework_header(names[gi as int]),
                    ] + grp.subrange(0, oi as int).map_values(
                        |v: VerificationView| outcome_line(v),
                    ))[i] && single_line(r@[i]@),
            decreases g.outcomes@.len() - oi,
        {
            let ghost curi = cur0 + seq![framework_header(names[gi as int])] + grp.subrange(
                0,
                oi as int,
            ).map_values(|v: VerificationView| outcome_line(v));
            let o = &g.outcomes[oi];
            proof {
                assert(g.outcomes@.map_values(|v: Verification| v@)[oi as int] == o@);
                assert(o@ == grp[oi as int]);
                if plain_report(all) {
                    lemma_group_elem(all, names[gi as int], oi as int);
                    let i = choose|i: int| 0 <= i < all.len() && grp[oi as int] == all[i];
                    assert(plain_verification(o@));
                }
            }
            let line = outcome_styled(o);
            r.push(line);
            proof {
                let curn = cur0 + seq![framework_header(names[gi as int])] + grp.subrange(
                    0,
                    oi + 1,
                ).map_values(|v: VerificationView| outcome_line(v));
                assert(grp.subrange(0, oi + 1).map_values(|v: VerificationView| outcome_line(v))
                    =~= grp.subrange(0, oi as int).map_values(
                    |v: VerificationView| outcome_line(v),
                ).push(outcome_line(grp[oi as int])));
                assert(curn =~= curi.push(outcome_line(grp[oi as int])));
                assert(r@.len() == curn.len());
                if plain_report(all) {
                    assert forall|i: int| 0 <= i < r@.len() implies strip_of((#[trigger] r@[i])@)
                        == curn[i] && single_line(r@[i]@) by {
                        if i < curi.len() {
                            assert(curn[i] == curi[i]);
                        } else {
                            assert(r@[i] == line);
                            assert(curn[i] == outcome_line(grp[oi as int]));
                        }
                    }
                }
            }
            oi = oi + 1;
        }
        proof {
            let full = grp.map_values(|v: VerificationView| outcome_line(v));
            assert(grp.subrange(0, grp.len() as int) =~= grp);
            assert(grp.subrange(0, oi as int).map_values(|v: VerificationView| outcome_line(v))
                == full);
            assert(cur0 + seq![framework_header(names[gi as int])] + full =~= pre3 + groups_lines(
                all,
                names.subrange(0, gi as int),
            ) + group_lines(all, names[gi as int]));
            assert(names.subrange(0, gi + 1).drop_last() =~= names.subrange(0, gi as int));
            assert(names.subrange(0, gi + 1).last() == names[gi as int]);
            assert(groups_lines(all, names.subrange(0, gi + 1)) == groups_lines(
                all,
                names.subrange(0, gi as int),
            ) + group_lines(all, names[gi as int]));
            assert(pre3 + groups_lines(all, names.subrange(0, gi as int)) + group_lines(
                all,
                names[gi as int],
            ) =~= pre3 + groups_lines(all, names.subrange(0, gi + 1)));
        }
        gi = gi + 1;
    }
    let s3 = cyan_line(border.as_str());
    r.push(s3);
    proof {
        assert(names.subrange(0, names.len() as int) =~= names);
        assert(lines =~= pre3 + groups_lines(all, names) + seq![border_line()]);
        assert(r@.len() == lines.len());
        if plain_report(all) {
            lemma_repeat_plain('=', 79);
            assert forall|i: int| 0 <= i < r@.len() implies strip_of((#[trigger] r@[i])@)
                == lines[i] && single_line(r@[i]@) by {
                if i < lines.len() - 1 {
                    assert((pre3 + groups_lines(all, names))[i] == lines[i]);
                } else {
                    assert(lines[i] == border_line());
                }
            }
        }
    }
    r
}


/// What rendering a summary produces: the logger as reconfigured by the
/// binding step, the lines appended to the transcript file, and the lines
/// printed to the console.
pub struct SummaryReport {
    pub logger: Logger,
    pub file_lines: Vec<String>,
    pub console_lines: Vec<ConsoleLine>,
}

/// Renders the verification summary through the given logger. The logger's
/// file sink is first bound to `benchmark.txt` in its log directory
/// (best-effort, `file_ready` says whether the caller could provide the file).
/// For a report whose surfaced parts are printable text, the transcript
/// receives exactly `summary_lines` of the outcomes, and the console receives
/// one styled line for each of them, unless the logger is quiet.
pub fn report_verifications(verifications: Vec<Verification>, logger: Logger, file_ready: bool) -> (out: SummaryReport)
    ensures
        out.logger@ == bound_view(logger@, "benchmark.txt"@, file_ready),
        plain_report(verification_views(verifications@)) ==> {
            let lines = summary_lines(verification_views(verifications@));
            &&& (out.logger@.log_file is Some ==> out.file_lines@.map_values(|s: String| s@)
                == lines)
            &&& (out.logger@.log_file is None ==> out.file_lines@.len() == 0)
            &&& out.console_lines@.len() == (if out.logger@.quiet {
                0int
            } else {
                lines.len() as int
            })
        },
{
    let ghost all = verification_views(verifications@);
    let ghost lines = summary_lines(all);
    let mut lg = logger;
    lg.set_log_file("benchmark.txt", file_ready);
    let groups = group_by_framework(verifications);
    let styled = summary_styled(&groups, Ghost(all));
    let mut file_lines: Vec<String> = Vec::new();
    let mut console_lines: Vec<ConsoleLine> = Vec::new();
    proof {
        assert(file_lines@.map_values(|s: String| s@) =~~= lines.subrange(0, 0));
    }
    let mut i: usize = 0;
    while i < styled.len()
        invariant
            lg@ == bound_view(logger@, "benchmark.txt"@, file_ready),
            styled@.len() == lines.len(),
            plain_report(all) ==> forall|k: int|
                0 <= k < styled@.len() ==> strip_of((#[trigger] styled@[k])@) == lines[k]
                    && single_line(styled@[k]@),
            0 <= i <= styled@.len(),
            plain_report(all) ==> {
                &&& (lg@.log_file is Some ==> file_lines@.map_values(|s: String| s@)
                    == lines.subrange(0, i as int))
                &&& (lg@.log_file is None ==> file_lines@.len() == 0)
                &&& console_lines@.len() == (if lg@.quiet {
                    0int
                } else {
                    i as int
                })
            },
        decreases styled@.len() - i,
    {
        let ghost fl_old = file_lines@;
        let ghost cl_old = console_lines@;
        let mut out = lg.log(styled[i].as_str());
        let ghost out0 = out;
        file_lines.append(&mut out.file_lines);
        console_lines.append(&mut out.console_lines);
        proof {
            if plain_report(all) {
                let sv = styled@[i as int]@;
                lemma_kept_single(sv);
                assert(kept_lines(sv) == seq![sv]);
                if lg@.log_file is Some {
                    assert(out0.file_views() == kept_lines(sv).map_values(
                        |l: Seq<char>| strip_of(l),
                    ));
                    assert(out0.file_views() =~~= seq![strip_of(sv)]);
                    assert(out0.file_lines@.len() == 1);
                    assert(out0.file_lines@.map_values(|s: String| s@)[0] == out0.file_lines@[0]@);
                    assert(out0.file_lines@[0]@ == strip_of(sv));
                    assert(strip_of(sv) == lines[i as int]);
                    assert(file_lines@ == fl_old + out0.file_lines@);
                    assert(file_lines@.map_values(|s: String| s@) =~~= lines.subrange(0, i + 1));
                } else {
                    assert(out0.file_views() =~~= Seq::<Seq<char>>::empty());
                    assert(out0.file_lines@.len() == 0);
                    assert(file_lines@ =~= fl_old);
                }
                if lg@.quiet {
                    assert(out0.console_body_views() =~~= Seq::<Seq<char>>::empty());
                    assert(out0.console_lines@.len() == 0);
                } else {
                    assert(out0.console_body_views() == kept_lines(sv).map_values(
                        |l: Seq<char>| trim_end(l),
                    ));
                    assert(out0.console_body_views().len() == 1);
                    assert(out0.console_lines@.len() == 1);
                }
                assert(console_lines@.len() == cl_old.len() + out0.console_lines@.len());
            }
        }
        i = i + 1;
    }
    proof {
        if plain_report(all) && lg@.log_file is Some {
            assert(lines.subrange(0, lines.len() as int) =~= lines);
        }
    }
    SummaryReport { logger: lg, file_lines, console_lines }
}


/// Priority of errors: an outcome with any error is rendered as `ERROR` with
/// the first error's short message, whatever its warnings hold.
pub proof fn lemma_error_priority(v: VerificationView)
    requires
        v.errors.len() > 0,
    ensures
        outcome_line(v) == lead_column() + type_column(v.test_type) + ": "@ + "ERROR"@ + " - "@
            + v.errors[0].short_message,
{
}

/// An outcome with no errors and at least one warning is rendered as `WARN`
/// with the first warning's short message.
pub proof fn lemma_warn_without_error(v: VerificationView)
    requires
        v.errors.len() == 0,
        v.warnings.len() > 0,
    ensures
        outcome_line(v) == lead_column() + type_column(v.test_type) + ": "@ + "WARN "@ + " - "@
            + v.warnings[0].short_message,
{
}

/// An outcome with neither errors nor warnings is rendered as `PASS` with no
/// trailing message: the line ends right after the status.
pub proof fn lemma_pass_line(v: VerificationView)
    requires
        v.errors.len() == 0,
        v.warnings.len() == 0,
    ensures
        outcome_line(v) == lead_column() + type_column(v.test_type) + ": "@ + "PASS"@,
{
}

} // verus!
