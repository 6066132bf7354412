//! Installation state of the Remote Desktop Services roles and the parsing
//! of the role query's output.
use vstd::prelude::*;
use crate::text::{
    chars_eq, chars_of, lines, lines_of, lower_chars, lower_seq, split_chars, split_on, trim,
    trim_chars, views,
};

verus! {

broadcast use vstd::string::group_string_axioms;

/// Installation state of one Windows feature.
#[derive(Clone, Copy, Debug, PartialEq, Eq, Structural)]
pub enum RoleInstallState {
    Installed,
    PendingRestart,
    Missing,
}

/// The state of the three RDS features and the domain membership of the server.
#[derive(Clone, Copy, Debug, PartialEq, Eq, Structural)]
pub struct RdsRoleStatus {
    pub session_host: RoleInstallState,
    pub licensing: RoleInstallState,
    pub licensing_ui: RoleInstallState,
    pub part_of_domain: bool,
}

impl RdsRoleStatus {
    pub open spec fn spec_fully_installed(self) -> bool {
        &&& self.session_host == RoleInstallState::Installed
        &&& self.licensing == RoleInstallState::Installed
        &&& self.licensing_ui == RoleInstallState::Installed
    }

    pub open spec fn spec_all_present(self) -> bool {
        &&& self.session_host != RoleInstallState::Missing
        &&& self.licensing != RoleInstallState::Missing
        &&& self.licensing_ui != RoleInstallState::Missing
    }

    pub open spec fn spec_has_pending_restart(self) -> bool {
        ||| self.session_host == RoleInstallState::PendingRestart
        ||| self.licensing == RoleInstallState::PendingRestart
        ||| self.licensing_ui == RoleInstallState::PendingRestart
    }

    /// All three features are installed.
    pub fn fully_installed(self) -> (r: bool)
        ensures
            r == self.spec_fully_installed(),
    {
        self.session_host == RoleInstallState::Installed && self.licensing
            == RoleInstallState::Installed && self.licensing_ui == RoleInstallState::Installed
    }

    /// None of the three features is missing.
    pub fn all_present(self) -> (r: bool)
        ensures
            r == self.spec_all_present(),
    {
        self.session_host != RoleInstallState::Missing && self.licensing
            != RoleInstallState::Missing && self.licensing_ui != RoleInstallState::Missing
    }

    /// Some feature waits for a restart.
    pub fn has_pending_restart(self) -> (r: bool)
        ensures
            r == self.spec_has_pending_restart(),
    {
        self.session_host == RoleInstallState::PendingRestart || self.licensing
            == RoleInstallState::PendingRestart || self.licensing_ui
            == RoleInstallState::PendingRestart
    }
}

/// The roles are fully installed exactly when all are present and none
/// waits for a restart.
pub proof fn law_fully_installed_is_present_without_restart(status: RdsRoleStatus)
    ensures
        status.spec_fully_installed() <==> (status.spec_all_present()
            && !status.spec_has_pending_restart()),
{
}

/// One of the three RDS features whose state the query reports.
#[derive(Clone, Copy, Debug, PartialEq, Eq, Structural)]
pub enum RdsFeature {
    SessionHost,
    Licensing,
    LicensingUi,
}

impl RdsFeature {
    /// The Windows feature name.
    pub fn feature_name(self) -> (s: &'static str)
        ensures
            s@ == rds_feature_name(self),
    {
        match self {
            RdsFeature::SessionHost => "RDS-RD-Server",
            RdsFeature::Licensing => "RDS-Licensing",
            RdsFeature::LicensingUi => "RDS-Licensing-UI",
        }
    }
}

pub open spec fn rds_feature_name(f: RdsFeature) -> Seq<char> {
    match f {
        RdsFeature::SessionHost => "RDS-RD-Server"@,
        RdsFeature::Licensing => "RDS-Licensing"@,
        RdsFeature::LicensingUi => "RDS-Licensing-UI"@,
    }
}

/// What the role query's output lacked.
#[derive(Clone, Copy, Debug, PartialEq, Eq, Structural)]
pub enum RoleQueryError {
    /// No `FEATURE` line named this feature.
    MissingFeatureState(RdsFeature),
    /// No usable `SYSTEM|PartOfDomain` line.
    MissingDomainMembership,
}

impl RoleQueryError {
    /// The first words of the message (a missing feature's name follows them).
    pub fn message_head(self) -> (s: &'static str)
        ensures
            s@ == role_query_error_head(self),
    {
        match self {
            RoleQueryError::MissingFeatureState(_) => "Windows did not return the state of ",
            RoleQueryError::MissingDomainMembership => "Windows did not return domain membership",
        }
    }

    /// The message shown to the administrator.
    pub fn message(self) -> (s: String)
        ensures
            s@ == role_query_error_message(self),
    {
        let mut s = String::from_str(self.message_head());
        match self {
            RoleQueryError::MissingFeatureState(f) => {
                s.append(f.feature_name());
            },
            RoleQueryError::MissingDomainMembership => {},
        }
        s
    }
}

pub open spec fn role_query_error_head(e: RoleQueryError) -> Seq<char> {
    match e {
        RoleQueryError::MissingFeatureState(_) => "Windows did not return the state of "@,
        RoleQueryError::MissingDomainMembership => "Windows did not return domain membership"@,
    }
}

pub open spec fn role_query_error_message(e: RoleQueryError) -> Seq<char> {
    match e {
        RoleQueryError::MissingFeatureState(f) => role_query_error_head(e) + rds_feature_name(f),
        RoleQueryError::MissingDomainMembership => role_query_error_head(e),
    }
}

/// What the lines read so far say: the last reported state of each
/// feature and the last reported domain membership.
#[derive(Clone, Copy, Debug, PartialEq, Eq, Structural)]
pub struct RoleScan {
    pub session_host: Option<RoleInstallState>,
    pub licensing: Option<RoleInstallState>,
    pub licensing_ui: Option<RoleInstallState>,
    pub part_of_domain: Option<bool>,
}

pub open spec fn empty_scan() -> RoleScan {
    RoleScan { session_host: None, licensing: None, licensing_ui: None, part_of_domain: None }
}

/// The state a `FEATURE` line reports, compared without case and around
/// white space.
pub open spec fn reported_state(raw: Seq<char>) -> RoleInstallState {
    let v = lower_seq(trim(raw));
    if v == "installed"@ {
        RoleInstallState::Installed
    } else if v == "installpending"@ {
        RoleInstallState::PendingRestart
    } else {
        RoleInstallState::Missing
    }
}

/// The domain membership a `SYSTEM|PartOfDomain` line reports.
pub open spec fn reported_membership(raw: Seq<char>) -> Option<bool> {
    let v = lower_seq(trim(raw));
    if v == "true"@ {
        Some(true)
    } else if v == "false"@ {
        Some(false)
    } else {
        None
    }
}

/// The effect of one output line. A line is trimmed and split at `|`:
/// `SYSTEM|PartOfDomain|<bool>` sets the membership (to nothing when the
/// value is missing or not a boolean); `FEATURE|<name>|<state>` sets the
/// state of the feature whose name matches without case; other lines, and
/// lines with too few fields, change nothing.
pub open spec fn scan_line(st: RoleScan, line: Seq<char>) -> RoleScan {
    let f = split_on(trim(line), '|');
    if f[0] == "SYSTEM"@ {
        if f.len() >= 2 && f[1] == "PartOfDomain"@ {
            RoleScan {
                part_of_domain: if f.len() >= 3 {
                    reported_membership(f[2])
                } else {
                    None
                },
                ..st
            }
        } else {
            st
        }
    } else if f[0] == "FEATURE"@ && f.len() >= 3 {
        let name = lower_seq(f[1]);
        let state = reported_state(f[2]);
        if name == "rds-rd-server"@ {
            RoleScan { session_host: Some(state), ..st }
        } else if name == "rds-licensing"@ {
            RoleScan { licensing: Some(state), ..st }
        } else if name == "rds-licensing-ui"@ {
            RoleScan { licensing_ui: Some(state), ..st }
        } else {
            st
        }
    } else {
        st
    }
}

pub open spec fn scan_lines(ls: Seq<Seq<char>>) -> RoleScan
    decreases ls.len(),
{
    if ls.len() == 0 {
        empty_scan()
    } else {
        scan_line(scan_lines(ls.drop_last()), ls.last())
    }
}

/// The result of parsing the role query's output.
pub open spec fn role_status_of(st: RoleScan) -> Result<RdsRoleStatus, RoleQueryError> {
    match (st.session_host, st.licensing, st.licensing_ui, st.part_of_domain) {
        (None, _, _, _) => Err(RoleQueryError::MissingFeatureState(RdsFeature::SessionHost)),
        (Some(_), None, _, _) => Err(RoleQueryError::MissingFeatureState(RdsFeature::Licensing)),
        (Some(_), Some(_), None, _) => Err(
            RoleQueryError::MissingFeatureState(RdsFeature::LicensingUi),
        ),
        (Some(_), Some(_), Some(_), None) => Err(RoleQueryError::MissingDomainMembership),
        (Some(s), Some(l), Some(u), Some(d)) => Ok(
            RdsRoleStatus { session_host: s, licensing: l, licensing_ui: u, part_of_domain: d },
        ),
    }
}

pub open spec fn parsed_role_status(output: Seq<char>) -> Result<RdsRoleStatus, RoleQueryError> {
    role_status_of(scan_lines(lines(output)))
}

fn matches_literal(s: &[char], lit: &str) -> (r: bool)
    ensures
        r == (s@ == lit@),
{
    let l = chars_of(lit);
    chars_eq(s, l.as_slice())
}

fn reported_state_chars(raw: &[char]) -> (r: RoleInstallState)
    ensures
        r == reported_state(raw@),
{
    let t = trim_chars(raw);
    let v = lower_chars(t.as_slice());
    if matches_literal(v.as_slice(), "installed") {
        RoleInstallState::Installed
    } else if matches_literal(v.as_slice(), "installpending") {
        RoleInstallState::PendingRestart
    } else {
        RoleInstallState::Missing
    }
}

fn reported_membership_chars(raw: &[char]) -> (r: Option<bool>)
    ensures
        r == reported_membership(raw@),
{
    let t = trim_chars(raw);
    let v = lower_chars(t.as_slice());
    if matches_literal(v.as_slice(), "true") {
        Some(true)
    } else if matches_literal(v.as_slice(), "false") {
        Some(false)
    } else {
        None
    }
}

fn scan_line_chars(st: RoleScan, line: &[char]) -> (r: RoleScan)
    ensures
        r == scan_line(st, line@),
{
    let t = trim_chars(line);
    let f = split_chars(t.as_slice(), '|');
    proof {
        crate::text::lemma_split_on_nonempty(t@, '|');
    }
    let ghost fv = split_on(t@, '|');
    assert(views(f@) == fv);
    assert(f@[0]@ == fv[0]);
    if matches_literal(f[0].as_slice(), "SYSTEM") {
        if f.len() >= 2 {
            assert(f@[1]@ == fv[1]);
            if matches_literal(f[1].as_slice(), "PartOfDomain") {
                let m = if f.len() >= 3 {
                    assert(f@[2]@ == fv[2]);
                    reported_membership_chars(f[2].as_slice())
                } else {
                    None
                };
                return RoleScan { part_of_domain: m, ..st };
            }
        }
        st
    } else if matches_literal(f[0].as_slice(), "FEATURE") && f.len() >= 3 {
        assert(f@[1]@ == fv[1]);
        assert(f@[2]@ == fv[2]);
        let name = lower_chars(f[1].as_slice());
        let state = reported_state_chars(f[2].as_slice());
        if matches_literal(name.as_slice(), "rds-rd-server") {
            RoleScan { session_host: Some(state), ..st }
        } else if matches_literal(name.as_slice(), "rds-licensing") {
            RoleScan { licensing: Some(state), ..st }
        } else if matches_literal(name.as_slice(), "rds-licensing-ui") {
            RoleScan { licensing_ui: Some(state), ..st }
        } else {
            st
        }
    } else {
        st
    }
}

/// Reads the role states and the domain membership from the output of the
/// role query: lines `FEATURE|<name>|<state>` and `SYSTEM|PartOfDomain|<bool>`.
/// The last line about a feature wins; the first missing item, in the order
/// RD Session Host, RD Licensing, its tools, domain membership, is the error.
pub fn parse_rds_role_status(output: &str) -> (r: Result<RdsRoleStatus, RoleQueryError>)
    ensures
        r == parsed_role_status(output@),
{
    let cs = chars_of(output);
    let ls = lines_of(cs.as_slice());
    let ghost lv = lines(output@);
    let mut st = RoleScan {
        session_host: None,
        licensing: None,
        licensing_ui: None,
        part_of_domain: None,
    };
    let n = ls.len();
    let mut i: usize = 0;
    assert(lv.take(0) =~= Seq::<Seq<char>>::empty());
    while i < n
        invariant
            n == ls@.len(),
            views(ls@) == lv,
            i <= n,
            st == scan_lines(lv.take(i as int)),
        decreases n - i,
    {
        assert(ls@[i as int]@ == lv[i as int]);
        assert(lv.take(i + 1).drop_last() =~= lv.take(i as int));
        st = scan_line_chars(st, ls[i].as_slice());
        i += 1;
    }
    assert(lv.take(n as int) =~= lv);
    match (st.session_host, st.licensing, st.licensing_ui, st.part_of_domain) {
        (None, _, _, _) => Err(RoleQueryError::MissingFeatureState(RdsFeature::SessionHost)),
        (Some(_), None, _, _) => Err(RoleQueryError::MissingFeatureState(RdsFeature::Licensing)),
        (Some(_), Some(_), None, _) => Err(
            RoleQueryError::MissingFeatureState(RdsFeature::LicensingUi),
        ),
        (Some(_), Some(_), Some(_), None) => Err(RoleQueryError::MissingDomainMembership),
        (Some(s), Some(l), Some(u), Some(d)) => Ok(
            RdsRoleStatus { session_host: s, licensing: l, licensing_ui: u, part_of_domain: d },
        ),
    }
}

/// The word the role query prints for a feature's install state.
pub open spec fn state_word(st: RoleInstallState) -> Seq<char> {
    match st {
        RoleInstallState::Installed => "Installed"@,
        RoleInstallState::PendingRestart => "InstallPending"@,
        RoleInstallState::Missing => "Available"@,
    }
}

/// The line the role query prints for feature `f` in state `st`.
pub open spec fn feature_report_line(f: RdsFeature, st: RoleInstallState) -> Seq<char> {
    "FEATURE"@ + seq!['|'] + rds_feature_name(f) + seq!['|'] + state_word(st)
}

/// The line the role query prints for the domain membership.
pub open spec fn membership_report_line(part_of_domain: bool) -> Seq<char> {
    "SYSTEM"@ + seq!['|'] + "PartOfDomain"@ + seq!['|'] + if part_of_domain {
        "True"@
    } else {
        "False"@
    }
}

/// What a scan holds for feature `f`.
pub open spec fn scanned_feature(sc: RoleScan, f: RdsFeature) -> Option<RoleInstallState> {
    match f {
        RdsFeature::SessionHost => sc.session_host,
        RdsFeature::Licensing => sc.licensing,
        RdsFeature::LicensingUi => sc.licensing_ui,
    }
}

proof fn lemma_split_extend(s: Seq<char>, c: Seq<char>, sep: char)
    requires
        !c.contains(sep),
    ensures
        split_on(s + c, sep) == split_on(s, sep).update(
            split_on(s, sep).len() - 1,
            split_on(s, sep).last() + c,
        ),
    decreases c.len(),
{
    crate::text::lemma_split_on_nonempty(s, sep);
    let r0 = split_on(s, sep);
    if c.len() == 0 {
        assert(s + c =~= s);
        assert(r0.last() + c =~= r0.last());
        assert(r0.update(r0.len() - 1, r0.last() + c) =~= r0);
    } else {
        let c0 = c.drop_last();
        assert(!c0.contains(sep)) by {
            if c0.contains(sep) {
                let k = choose|k: int| 0 <= k < c0.len() && c0[k] == sep;
                assert(c[k] == sep);
            }
        }
        assert(c.last() != sep) by {
            assert(c[c.len() - 1] == c.last());
        }
        lemma_split_extend(s, c0, sep);
        assert((s + c).drop_last() =~= s + c0);
        assert((s + c).last() == c.last());
        let r = split_on(s + c0, sep);
        crate::text::lemma_split_on_nonempty(s + c0, sep);
        assert(r.last() == r0.last() + c0);
        assert(split_on(s + c, sep) == r.update(r.len() - 1, r.last().push(c.last())));
        assert((r0.last() + c0).push(c.last()) =~= r0.last() + c);
        assert(r.len() == r0.len());
        assert(split_on(s + c, sep) =~= r0.update(r0.len() - 1, r0.last() + c));
    }
}

/// Three fields without `|`, joined by `|`, split back into themselves.
proof fn lemma_split_three_fields(a: Seq<char>, b: Seq<char>, c: Seq<char>)
    requires
        !a.contains('|'),
        !b.contains('|'),
        !c.contains('|'),
    ensures
        split_on(a + seq!['|'] + b + seq!['|'] + c, '|') == seq![a, b, c],
{
    let e = Seq::<char>::empty();
    assert(split_on(e, '|') == seq![e]);
    lemma_split_extend(e, a, '|');
    assert(e + a =~= a);
    assert(split_on(a, '|') =~= seq![a]);
    let p1 = a + seq!['|'];
    assert(p1.drop_last() =~= a);
    assert(split_on(p1, '|') =~= seq![a, e]);
    lemma_split_extend(p1, b, '|');
    assert(e + b =~= b);
    assert(split_on(p1 + b, '|') =~= seq![a, b]);
    let p2 = p1 + b + seq!['|'];
    assert(p2.drop_last() =~= p1 + b);
    assert(split_on(p2, '|') =~= seq![a, b, e]);
    lemma_split_extend(p2, c, '|');
    assert(e + c =~= c);
    assert(split_on(p2 + c, '|') =~= seq![a, b, c]);
}

proof fn lemma_trim_unchanged(s: Seq<char>)
    requires
        s.len() > 0,
        !crate::text::is_white_space(s[0]),
        !crate::text::is_white_space(s.last()),
    ensures
        trim(s) == s,
{
}

proof fn lemma_feature_line_scan(sc: RoleScan, f: RdsFeature, st: RoleInstallState)
    ensures
        scanned_feature(scan_line(sc, feature_report_line(f, st)), f) == Some(st),
        forall|g: RdsFeature|
            g != f ==> scanned_feature(scan_line(sc, feature_report_line(f, st)), g)
                == #[trigger] scanned_feature(sc, g),
        scan_line(sc, feature_report_line(f, st)).part_of_domain == sc.part_of_domain,
{
    reveal_strlit("FEATURE");
    reveal_strlit("SYSTEM");
    reveal_strlit("RDS-RD-Server");
    reveal_strlit("RDS-Licensing");
    reveal_strlit("RDS-Licensing-UI");
    reveal_strlit("rds-rd-server");
    reveal_strlit("rds-licensing");
    reveal_strlit("rds-licensing-ui");
    reveal_strlit("Installed");
    reveal_strlit("InstallPending");
    reveal_strlit("Available");
    reveal_strlit("installed");
    reveal_strlit("installpending");
    let name = rds_feature_name(f);
    let word = state_word(st);
    let line = feature_report_line(f, st);
    assert(!"FEATURE"@.contains('|'));
    assert(!name.contains('|'));
    assert(!word.contains('|'));
    assert(word.last() == word[word.len() - 1]);
    assert(line[0] == 'F');
    assert(line.last() == word.last());
    lemma_trim_unchanged(line);
    lemma_split_three_fields("FEATURE"@, name, word);
    lemma_trim_unchanged(word);
    let lname = lower_seq(name);
    let lword = lower_seq(word);
    let f3 = split_on(trim(line), '|');
    assert(f3[0] == "FEATURE"@ && f3.len() >= 3 && f3[1] == name && f3[2] == word);
    assert(f3[0] != "SYSTEM"@) by {
        assert(f3[0].len() != "SYSTEM"@.len());
    }
    assert("rds-licensing"@[4] != "rds-rd-server"@[4]);
    match f {
        RdsFeature::SessionHost => {
            assert(lname =~= "rds-rd-server"@);
        },
        RdsFeature::Licensing => {
            assert(lname =~= "rds-licensing"@);
            assert(lname != "rds-rd-server"@) by {
                assert(lname[4] != "rds-rd-server"@[4]);
            }
        },
        RdsFeature::LicensingUi => {
            assert(lname =~= "rds-licensing-ui"@);
            assert(lname.len() != "rds-rd-server"@.len());
            assert(lname.len() != "rds-licensing"@.len());
        },
    }
    match st {
        RoleInstallState::Installed => {
            assert(lword =~= "installed"@);
        },
        RoleInstallState::PendingRestart => {
            assert(lword =~= "installpending"@);
        },
        RoleInstallState::Missing => {
            assert(lword.len() == 9);
            assert(lword[0] == 'a');
            assert(lword != "installed"@) by {
                assert(lword[0] != "installed"@[0]);
            }
            assert(lword != "installpending"@) by {
                assert(lword.len() != "installpending"@.len());
            }
        },
    }
    assert(reported_state(word) == st);
}

/// The last report about a feature wins: whatever the lines before it said,
/// a line `FEATURE|<name>|<state>` as the role query prints it sets that
/// feature to the state it names (`Installed`, `InstallPending` for a
/// pending restart, anything else such as `Available` for missing) and
/// leaves the other features and the domain membership as they were.
pub proof fn law_last_feature_report_wins(ls: Seq<Seq<char>>, f: RdsFeature, st: RoleInstallState)
    ensures
        scanned_feature(scan_lines(ls.push(feature_report_line(f, st))), f) == Some(st),
        forall|g: RdsFeature|
            g != f ==> scanned_feature(scan_lines(ls.push(feature_report_line(f, st))), g)
                == #[trigger] scanned_feature(scan_lines(ls), g),
        scan_lines(ls.push(feature_report_line(f, st))).part_of_domain == scan_lines(
            ls,
        ).part_of_domain,
{
    assert(ls.push(feature_report_line(f, st)).drop_last() =~= ls);
    lemma_feature_line_scan(scan_lines(ls), f, st);
}

/// Likewise the last `SYSTEM|PartOfDomain|True` or `False` line sets the
/// domain membership and leaves the features as they were.
pub proof fn law_last_membership_report_wins(ls: Seq<Seq<char>>, part_of_domain: bool)
    ensures
        scan_lines(ls.push(membership_report_line(part_of_domain))) == (RoleScan {
            part_of_domain: Some(part_of_domain),
            ..scan_lines(ls)
        }),
{
    reveal_strlit("SYSTEM");
    reveal_strlit("PartOfDomain");
    reveal_strlit("True");
    reveal_strlit("False");
    reveal_strlit("true");
    reveal_strlit("false");
    let ls2 = ls.push(membership_report_line(part_of_domain));
    assert(ls2.drop_last() =~= ls);
    let word = if part_of_domain {
        "True"@
    } else {
        "False"@
    };
    let line = membership_report_line(part_of_domain);
    assert(!"SYSTEM"@.contains('|'));
    assert(!"PartOfDomain"@.contains('|'));
    assert(!word.contains('|'));
    assert(word.last() == word[word.len() - 1]);
    assert(line[0] == 'S');
    assert(line.last() == word.last());
    lemma_trim_unchanged(line);
    lemma_split_three_fields("SYSTEM"@, "PartOfDomain"@, word);
    lemma_trim_unchanged(word);
    if part_of_domain {
        assert(lower_seq(word) =~= "true"@);
    } else {
        assert(lower_seq(word) =~= "false"@);
    }
}

/// The query's report of a status reads back as that status: after any
/// earlier lines, the membership line and the three feature lines give
/// exactly the status they describe.
pub proof fn law_role_report_reads_back(ls: Seq<Seq<char>>, status: RdsRoleStatus)
    ensures
        role_status_of(
            scan_lines(
                ls + seq![
                    membership_report_line(status.part_of_domain),
                    feature_report_line(RdsFeature::SessionHost, status.session_host),
                    feature_report_line(RdsFeature::Licensing, status.licensing),
                    feature_report_line(RdsFeature::LicensingUi, status.licensing_ui),
                ],
            ),
        ) == Ok::<RdsRoleStatus, RoleQueryError>(status),
{
    let l0 = membership_report_line(status.part_of_domain);
    let l1 = feature_report_line(RdsFeature::SessionHost, status.session_host);
    let l2 = feature_report_line(RdsFeature::Licensing, status.licensing);
    let l3 = feature_report_line(RdsFeature::LicensingUi, status.licensing_ui);
    let a0 = ls.push(l0);
    let a1 = a0.push(l1);
    let a2 = a1.push(l2);
    let a3 = a2.push(l3);
    law_last_membership_report_wins(ls, status.part_of_domain);
    law_last_feature_report_wins(a0, RdsFeature::SessionHost, status.session_host);
    law_last_feature_report_wins(a1, RdsFeature::Licensing, status.licensing);
    law_last_feature_report_wins(a2, RdsFeature::LicensingUi, status.licensing_ui);
    assert(a3 =~= ls + seq![l0, l1, l2, l3]);
    let sc = scan_lines(a3);
    assert(scanned_feature(sc, RdsFeature::SessionHost) == Some(status.session_host));
    assert(scanned_feature(sc, RdsFeature::Licensing) == Some(status.licensing));
    assert(scanned_feature(sc, RdsFeature::LicensingUi) == Some(status.licensing_ui));
}

} // verus!
