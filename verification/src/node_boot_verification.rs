//! Verification of a node's image at boot.
//!
//! A service that runs before the kubelet compares the image, the kernel, the
//! operating system and the installed packages with what is expected of the
//! node. A node that differs does not join the cluster, and a condition of the
//! node says why.

use vstd::prelude::*;
use vstd::string::*;
use crate::str_map::{
    StrMap, ascending, entry, lemma_read_after_write, lemma_with_entry_ascending, with_entry,
};
use crate::text::{
    begins_with, cat2, cat4, cat6, chars_of, decimal, decimal_text, ends_in, ends_with, find_from,
    first_place, has, join, joined, law_first_place_is_the_first, lines_of, occurs_at, same,
    split_at_first, split_once, starts_with, text_lines, text_of, trim_end_char, trim_start_matches,
    views, without_leading, without_trailing, words, words_of,
};

verus! {

/// How much a check matters.
#[derive(Clone, Copy, Debug, PartialEq, Eq, Structural)]
pub enum CheckSeverity {
    Critical,
    Warning,
}

/// What is expected of a node.
#[derive(Debug)]
pub struct ExpectedImageSpec {
    /// Digest of the image, with `sha256:` in front.
    pub image_digest: String,
    /// How the kernel's version begins; any version where it is empty.
    pub kernel_version: String,
    /// Version of the operating system; any where it is empty.
    pub os_release: String,
    /// Packages that have to be there, with the version that they have to have.
    pub allowlisted_packages: StrMap<String>,
    /// Packages that may not be there.
    pub denylisted_packages: Vec<String>,
}

impl Default for ExpectedImageSpec {
    fn default() -> (r: Self)
        ensures
            r.image_digest@ == Seq::<char>::empty(),
            r.kernel_version@ == Seq::<char>::empty(),
            r.os_release@ == Seq::<char>::empty(),
            r.allowlisted_packages.texts() == Seq::<(Seq<char>, Seq<char>)>::empty(),
            r.denylisted_packages@.len() == 0,
    {
        let allowlisted_packages: StrMap<String> = StrMap::new();
        assert(allowlisted_packages.texts() =~= Seq::<(Seq<char>, Seq<char>)>::empty());
        ExpectedImageSpec {
            image_digest: String::new(),
            kernel_version: String::new(),
            os_release: String::new(),
            allowlisted_packages,
            denylisted_packages: Vec::new(),
        }
    }
}

/// What came of a check.
#[derive(Debug)]
pub struct VerificationCheck {
    pub name: String,
    pub passed: bool,
    pub message: String,
    pub duration_ms: u64,
    pub severity: CheckSeverity,
}

impl Default for VerificationCheck {
    fn default() -> (r: Self)
        ensures
            r.name@ == "test"@,
            r.passed,
            r.message@ == "test"@,
            r.duration_ms == 0,
            r.severity == CheckSeverity::Critical,
    {
        VerificationCheck {
            name: "test".to_string(),
            passed: true,
            message: "test".to_string(),
            duration_ms: 0,
            severity: CheckSeverity::Critical,
        }
    }
}

/// What came of all checks of a node.
#[derive(Debug)]
pub struct NodeBootVerificationResult {
    pub node_name: String,
    pub timestamp: String,
    pub overall_passed: bool,
    pub total_duration_ms: u64,
    pub checks: Vec<VerificationCheck>,
    pub image_spec_version: String,
}

/// A condition of a node.
#[derive(Debug)]
pub struct NodeCondition {
    pub condition_type: String,
    /// True, False or Unknown.
    pub status: String,
    pub reason: String,
    pub message: String,
    pub last_transition_time: String,
}

/// What a check says.
#[verifier::ext_equal]
pub ghost struct Finding {
    pub name: Seq<char>,
    pub passed: bool,
    pub message: Seq<char>,
    pub duration_ms: u64,
    pub severity: CheckSeverity,
}

impl View for VerificationCheck {
    type V = Finding;

    open spec fn view(&self) -> Finding {
        Finding {
            name: self.name@,
            passed: self.passed,
            message: self.message@,
            duration_ms: self.duration_ms,
            severity: self.severity,
        }
    }
}

/// A critical finding.
pub open spec fn critical(
    name: Seq<char>,
    passed: bool,
    message: Seq<char>,
    duration_ms: u64,
) -> Finding {
    Finding { name, passed, message, duration_ms, severity: CheckSeverity::Critical }
}

fn check(name: &str, passed: bool, message: String, duration_ms: u64) -> (r: VerificationCheck)
    ensures
        r@ == critical(name@, passed, message@, duration_ms),
{
    VerificationCheck {
        name: name.to_string(),
        passed,
        message,
        duration_ms,
        severity: CheckSeverity::Critical,
    }
}

/// The value of an optional text; empty where there is none.
pub open spec fn or_empty(s: Option<Seq<char>>) -> Seq<char> {
    match s {
        Some(t) => t,
        None => Seq::empty(),
    }
}

fn or_empty_text(s: Option<String>) -> (r: String)
    ensures
        r@ == or_empty(
            match s {
                Some(t) => Some(t@),
                None => None,
            },
        ),
{
    match s {
        Some(t) => t,
        None => String::new(),
    }
}

/// The digest that a container runtime's description of an image gives.
pub open spec fn digest_in(output: Seq<char>) -> Option<Seq<char>> {
    match first_place(output, "\"id\": \"sha256:"@, 0) {
        Some(i) => {
            let rest = output.subrange(i + 7, output.len() as int);
            match first_place(rest, "\""@, 0) {
                Some(end) => Some(rest.subrange(0, end)),
                None => None,
            }
        },
        None => None,
    }
}

/// The digest, with `sha256:` in front, that a container runtime's description
/// of an image gives.
pub fn parse_image_digest(output: &str) -> (r: Option<String>)
    ensures
        (match r {
            Some(t) => digest_in(output@) == Some(t@),
            None => digest_in(output@) is None,
        }),
{
    let v = chars_of(output);
    let marker = chars_of("\"id\": \"sha256:");
    let quote = chars_of("\"");
    proof {
        reveal_strlit("\"id\": \"sha256:");
    }
    let n = v.len();
    match find_from(&v, &marker, 0) {
        Some(i) => {
            let rest_text = text_of(&v, i + 7, n);
            let rest = chars_of(&rest_text);
            match find_from(&rest, &quote, 0) {
                Some(end) => Some(text_of(&rest, 0, end)),
                None => None,
            }
        },
        None => None,
    }
}

/// The image is the expected one. Where its digest cannot be read, or none is
/// expected, it is not.
pub open spec fn is_expected_image(expected: Seq<char>, actual: Option<Seq<char>>) -> bool {
    let want = without_leading(expected, "sha256:"@);
    actual is Some && want.len() > 0 && without_leading(actual->0, "sha256:"@) == want
}

/// What the check of the image finds.
pub open spec fn image_finding(
    expected: Seq<char>,
    actual: Option<Seq<char>>,
    duration_ms: u64,
) -> Finding {
    let want = without_leading(expected, "sha256:"@);
    let got = or_empty(actual);
    let passed = is_expected_image(expected, actual);
    critical(
        "image_digest"@,
        passed,
        if passed {
            "Image digest matches: "@ + want
        } else {
            "Image digest mismatch! Expected: "@ + want + ", Got: "@ + got
        },
        duration_ms,
    )
}

/// Compares the digest of the image with the expected one.
pub fn verify_image_digest(
    spec: &ExpectedImageSpec,
    actual: Option<String>,
    duration_ms: u64,
) -> (r: VerificationCheck)
    ensures
        r@ == image_finding(
            spec.image_digest@,
            match actual {
                Some(t) => Some(t@),
                None => None,
            },
            duration_ms,
        ),
{
    proof {
        reveal_strlit("sha256:");
    }
    let want = trim_start_matches(&spec.image_digest, "sha256:");
    let known = actual.is_some();
    let got = or_empty_text(actual);
    let passed = known && !want.as_str().is_empty() && same(
        &trim_start_matches(&got, "sha256:"),
        &want,
    );
    let message = if passed {
        cat2("Image digest matches: ", &want)
    } else {
        cat4("Image digest mismatch! Expected: ", &want, ", Got: ", &got)
    };
    check("image_digest", passed, message, duration_ms)
}

/// The kernel's version in what the kernel says of itself: the third word.
pub open spec fn kernel_in(proc_version: Option<Seq<char>>) -> Seq<char> {
    match proc_version {
        Some(s) => if words(s).len() > 2 {
            words(s)[2]
        } else {
            Seq::empty()
        },
        None => Seq::empty(),
    }
}

/// What the check of the kernel finds.
pub open spec fn kernel_finding(
    expected: Seq<char>,
    proc_version: Option<Seq<char>>,
    duration_ms: u64,
) -> Finding {
    let actual = kernel_in(proc_version);
    let passed = expected.len() == 0 || begins_with(actual, expected);
    critical(
        "kernel_version"@,
        passed,
        if passed {
            "Kernel version OK: "@ + actual
        } else {
            "Kernel version mismatch! Expected prefix: "@ + expected + ", Got: "@ + actual
        },
        duration_ms,
    )
}

/// Compares the kernel's version with the expected one, from the text of
/// `/proc/version`.
pub fn verify_kernel_version(
    spec: &ExpectedImageSpec,
    proc_version: Option<String>,
    duration_ms: u64,
) -> (r: VerificationCheck)
    ensures
        r@ == kernel_finding(
            spec.kernel_version@,
            match proc_version {
                Some(t) => Some(t@),
                None => None,
            },
            duration_ms,
        ),
{
    let actual = match proc_version {
        Some(s) => {
            let all = words_of(&s);
            assert(views(all@).len() == all@.len());
            if all.len() > 2 {
                all[2].clone()
            } else {
                String::new()
            }
        },
        None => String::new(),
    };
    let passed = spec.kernel_version.as_str().is_empty() || starts_with(
        &actual,
        &spec.kernel_version,
    );
    let message = if passed {
        cat2("Kernel version OK: ", &actual)
    } else {
        cat4(
            "Kernel version mismatch! Expected prefix: ",
            &spec.kernel_version,
            ", Got: ",
            &actual,
        )
    };
    check("kernel_version", passed, message, duration_ms)
}

/// The first line from `i` on that begins with `p`.
pub open spec fn first_line(v: Seq<Seq<char>>, p: Seq<char>, i: int) -> Option<Seq<char>>
    decreases v.len() - i,
{
    if i < 0 || i >= v.len() {
        None
    } else if begins_with(v[i], p) {
        Some(v[i])
    } else {
        first_line(v, p, i + 1)
    }
}

/// The version of the operating system in the text of `/etc/os-release`.
pub open spec fn release_in(os_release: Option<Seq<char>>) -> Seq<char> {
    match os_release {
        Some(s) => match first_line(text_lines(s), "VERSION_ID="@, 0) {
            Some(line) => without_trailing(
                without_leading(without_leading(line, "VERSION_ID="@), "\""@),
                '"',
            ),
            None => Seq::empty(),
        },
        None => Seq::empty(),
    }
}

fn parse_release(os_release: &str) -> (r: String)
    ensures
        r@ == release_in(Some(os_release@)),
{
    let lines = lines_of(os_release);
    proof {
        reveal_strlit("VERSION_ID=");
        reveal_strlit("\"");
    }
    let mut i: usize = 0;
    while i < lines.len()
        invariant
            i <= lines.len(),
            views(lines@) == text_lines(os_release@),
            "VERSION_ID="@.len() > 0,
            "\""@.len() > 0,
            first_line(text_lines(os_release@), "VERSION_ID="@, 0) == first_line(
                text_lines(os_release@),
                "VERSION_ID="@,
                i as int,
            ),
        decreases lines@.len() - i,
    {
        assert(views(lines@)[i as int] == lines@[i as int]@);
        if starts_with(&lines[i], "VERSION_ID=") {
            let value = trim_start_matches(&lines[i], "VERSION_ID=");
            let value = trim_start_matches(&value, "\"");
            return trim_end_char(&value, '"');
        }
        i = i + 1;
    }
    assert(views(lines@).len() == lines@.len());
    String::new()
}

/// What the check of the operating system finds.
pub open spec fn release_finding(
    expected: Seq<char>,
    os_release: Option<Seq<char>>,
    duration_ms: u64,
) -> Finding {
    let actual = release_in(os_release);
    let passed = expected.len() == 0 || actual == expected;
    critical(
        "os_release"@,
        passed,
        if passed {
            "OS release OK: "@ + actual
        } else {
            "OS release mismatch! Expected: "@ + expected + ", Got: "@ + actual
        },
        duration_ms,
    )
}

/// Compares the version of the operating system with the expected one, from the
/// text of `/etc/os-release`.
pub fn verify_os_release(
    spec: &ExpectedImageSpec,
    os_release: Option<String>,
    duration_ms: u64,
) -> (r: VerificationCheck)
    ensures
        r@ == release_finding(
            spec.os_release@,
            match os_release {
                Some(t) => Some(t@),
                None => None,
            },
            duration_ms,
        ),
{
    let actual = match os_release {
        Some(s) => parse_release(&s),
        None => String::new(),
    };
    let passed = spec.os_release.as_str().is_empty() || same(&actual, &spec.os_release);
    let message = if passed {
        cat2("OS release OK: ", &actual)
    } else {
        cat4("OS release mismatch! Expected: ", &spec.os_release, ", Got: ", &actual)
    };
    check("os_release", passed, message, duration_ms)
}

/// The packages in the first `n` lines, each a name, a blank and a version. A
/// later line stands in place of an earlier one of the same name.
pub open spec fn packages_upto(v: Seq<Seq<char>>, n: int) -> Seq<(Seq<char>, Seq<char>)>
    decreases n,
{
    if n <= 0 {
        Seq::empty()
    } else {
        match split_at_first(v[n - 1], " "@) {
            Some((name, version)) => with_entry(packages_upto(v, n - 1), name, version),
            None => packages_upto(v, n - 1),
        }
    }
}

/// The packages that a package manager lists.
pub open spec fn packages_in(output: Seq<char>) -> Seq<(Seq<char>, Seq<char>)> {
    packages_upto(text_lines(output), text_lines(output).len() as int)
}

/// Reads the packages that a package manager lists, one a line, each a name, a
/// blank and a version.
pub fn parse_packages(output: &str) -> (r: StrMap<String>)
    ensures
        r.texts() == packages_in(output@),
{
    let lines = lines_of(output);
    let mut r: StrMap<String> = StrMap::new();
    assert(r.texts() =~= Seq::<(Seq<char>, Seq<char>)>::empty());
    let mut i: usize = 0;
    while i < lines.len()
        invariant
            i <= lines.len(),
            views(lines@) == text_lines(output@),
            r.texts() == packages_upto(text_lines(output@), i as int),
        decreases lines@.len() - i,
    {
        assert(views(lines@)[i as int] == lines@[i as int]@);
        match split_once(&lines[i], " ") {
            Some((name, version)) => {
                r.put(&name, &version);
            },
            None => {},
        }
        i = i + 1;
    }
    assert(views(lines@).len() == lines@.len());
    r
}

/// The packages that the first package manager with any lists.
pub open spec fn first_packages(outputs: Seq<String>, i: int) -> Seq<(Seq<char>, Seq<char>)>
    decreases outputs.len() - i,
{
    if i < 0 || i >= outputs.len() {
        Seq::empty()
    } else if packages_in(outputs[i]@).len() > 0 {
        packages_in(outputs[i]@)
    } else {
        first_packages(outputs, i + 1)
    }
}

/// Reads the installed packages from what package managers list: from the first
/// one that lists any.
pub fn installed_packages(outputs: &Vec<String>) -> (r: StrMap<String>)
    ensures
        r.texts() == first_packages(outputs@, 0),
{
    let mut i: usize = 0;
    while i < outputs.len()
        invariant
            i <= outputs.len(),
            first_packages(outputs@, 0) == first_packages(outputs@, i as int),
        decreases outputs@.len() - i,
    {
        let found = parse_packages(&outputs[i]);
        if !found.is_empty() {
            return found;
        }
        i = i + 1;
    }
    let none: StrMap<String> = StrMap::new();
    assert(none.texts() =~= Seq::<(Seq<char>, Seq<char>)>::empty());
    none
}

/// Whether a version meets a constraint: it is the same, or it begins with what
/// stands before the `*` at the constraint's end.
pub open spec fn satisfies(installed: Seq<char>, constraint: Seq<char>) -> bool {
    if ends_in(constraint, "*"@) {
        begins_with(installed, without_trailing(constraint, '*'))
    } else {
        installed == constraint
    }
}

/// Whether a version meets a constraint: it is the same, or it begins with what
/// stands before the `*` at the constraint's end.
pub fn version_satisfies(installed: &str, constraint: &str) -> (r: bool)
    ensures
        r == satisfies(installed@, constraint@),
{
    if ends_with(constraint, "*") {
        let prefix = trim_end_char(constraint, '*');
        starts_with(installed, &prefix)
    } else {
        same(installed, constraint)
    }
}

/// What the check of a package finds. No time is noted for it.
pub open spec fn package_finding(
    package: Seq<char>,
    constraint: Seq<char>,
    installed: Option<Seq<char>>,
) -> Finding {
    let name = "package_"@ + package;
    match installed {
        Some(v) => if constraint.len() == 0 || satisfies(v, constraint) {
            critical(
                name,
                true,
                "Package "@ + package + " version "@ + v + " satisfies "@ + constraint,
                0,
            )
        } else {
            critical(
                name,
                false,
                "Package "@ + package + " version "@ + v + " does not satisfy "@ + constraint,
                0,
            )
        },
        None => critical(name, false, "Required package "@ + package + " not installed"@, 0),
    }
}

/// What the checks of the first `n` packages find.
pub open spec fn package_findings(
    expected: Seq<(Seq<char>, Seq<char>)>,
    installed: Seq<(Seq<char>, Seq<char>)>,
    n: int,
) -> Seq<Finding>
    decreases n,
{
    if n <= 0 {
        Seq::empty()
    } else {
        package_findings(expected, installed, n - 1).push(
            package_finding(
                expected[n - 1].0,
                expected[n - 1].1,
                entry(installed, expected[n - 1].0),
            ),
        )
    }
}

/// What checks find.
pub open spec fn findings(v: Seq<VerificationCheck>) -> Seq<Finding> {
    Seq::new(v.len(), |i: int| v[i]@)
}

/// Checks that every package that has to be there is, in the right version.
pub fn verify_allowlisted_packages(
    spec: &ExpectedImageSpec,
    installed: &StrMap<String>,
) -> (r: Vec<VerificationCheck>)
    ensures
        findings(r@) == package_findings(
            spec.allowlisted_packages.texts(),
            installed.texts(),
            spec.allowlisted_packages.texts().len() as int,
        ),
{
    let mut r: Vec<VerificationCheck> = Vec::new();
    assert(findings(r@) =~= Seq::<Finding>::empty());
    let n = spec.allowlisted_packages.len();
    let mut i: usize = 0;
    while i < n
        invariant
            i <= n,
            n == spec.allowlisted_packages.list().len(),
            findings(r@) == package_findings(
                spec.allowlisted_packages.texts(),
                installed.texts(),
                i as int,
            ),
        decreases n - i,
    {
        let ghost before = findings(r@);
        let package = spec.allowlisted_packages.key_at(i);
        let constraint = spec.allowlisted_packages.value_at(i);
        let (passed, message) = match installed.text_at(package) {
            Some(v) => {
                if constraint.as_str().is_empty() || version_satisfies(v, constraint) {
                    (true, cat6("Package ", package, " version ", v, " satisfies ", constraint))
                } else {
                    (
                        false,
                        cat6("Package ", package, " version ", v, " does not satisfy ", constraint),
                    )
                }
            },
            None => (false, crate::text::cat3("Required package ", package, " not installed")),
        };
        let found = check(&cat2("package_", package), passed, message, 0);
        let ghost finding = found@;
        r.push(found);
        assert(findings(r@) =~= before.push(finding));
        i = i + 1;
    }
    r
}

/// Those of the first `n` packages that are installed.
pub open spec fn present(
    denied: Seq<Seq<char>>,
    installed: Seq<(Seq<char>, Seq<char>)>,
    n: int,
) -> Seq<Seq<char>>
    decreases n,
{
    if n <= 0 {
        Seq::empty()
    } else if entry(installed, denied[n - 1]) is Some {
        present(denied, installed, n - 1).push(denied[n - 1])
    } else {
        present(denied, installed, n - 1)
    }
}

/// What the check of the packages that may not be there finds.
pub open spec fn denied_finding(
    denied: Seq<Seq<char>>,
    installed: Seq<(Seq<char>, Seq<char>)>,
    duration_ms: u64,
) -> Finding {
    let found = present(denied, installed, denied.len() as int);
    critical(
        "denylisted_packages"@,
        found.len() == 0,
        if found.len() == 0 {
            "No denylisted packages found"@
        } else {
            "Denylisted packages found: "@ + joined(found, ", "@)
        },
        duration_ms,
    )
}

/// Checks that no package is there that may not be.
pub fn verify_denylisted_packages(
    spec: &ExpectedImageSpec,
    installed: &StrMap<String>,
    duration_ms: u64,
) -> (r: VerificationCheck)
    ensures
        r@ == denied_finding(views(spec.denylisted_packages@), installed.texts(), duration_ms),
{
    let ghost denied = views(spec.denylisted_packages@);
    let mut found: Vec<String> = Vec::new();
    assert(views(found@) =~= Seq::<Seq<char>>::empty());
    let mut i: usize = 0;
    while i < spec.denylisted_packages.len()
        invariant
            i <= spec.denylisted_packages.len(),
            denied == views(spec.denylisted_packages@),
            views(found@) == present(denied, installed.texts(), i as int),
        decreases spec.denylisted_packages@.len() - i,
    {
        let package = &spec.denylisted_packages[i];
        assert(denied[i as int] == package@);
        if installed.text_at(package).is_some() {
            let ghost before = views(found@);
            found.push(package.clone());
            assert(views(found@) =~= before.push(package@));
        }
        i = i + 1;
    }
    assert(views(found@).len() == found@.len());
    let passed = found.len() == 0;
    let message = if passed {
        "No denylisted packages found".to_string()
    } else {
        cat2("Denylisted packages found: ", &join(&found, ", "))
    };
    check("denylisted_packages", passed, message, duration_ms)
}

/// Every check has passed.
pub open spec fn all_passed(v: Seq<VerificationCheck>) -> bool {
    forall|i: int| 0 <= i < v.len() ==> (#[trigger] v[i]).passed
}

/// What the checks of a node amount to: the node passes if every check does.
pub fn node_boot_result(
    spec: &ExpectedImageSpec,
    checks: Vec<VerificationCheck>,
    node_name: String,
    timestamp: String,
    total_duration_ms: u64,
) -> (r: NodeBootVerificationResult)
    ensures
        r.overall_passed == all_passed(checks@),
        r.checks == checks,
        r.node_name == node_name,
        r.timestamp == timestamp,
        r.total_duration_ms == total_duration_ms,
        r.image_spec_version@ == spec.image_digest@,
{
    let mut overall_passed = true;
    let mut i: usize = 0;
    while i < checks.len()
        invariant
            i <= checks.len(),
            overall_passed == forall|j: int| 0 <= j < i ==> (#[trigger] checks@[j]).passed,
        decreases checks@.len() - i,
    {
        if !checks[i].passed {
            overall_passed = false;
        }
        i = i + 1;
    }
    NodeBootVerificationResult {
        node_name,
        timestamp,
        overall_passed,
        total_duration_ms,
        checks,
        image_spec_version: spec.image_digest.clone(),
    }
}

/// The milliseconds that the checks of a node took.
#[derive(Clone, Copy, Debug)]
pub struct CheckTimes {
    pub image: u64,
    pub kernel: u64,
    pub release: u64,
    pub denied: u64,
}

/// The findings of all checks of a node, the other checks after its own.
pub open spec fn boot_findings(
    spec: ExpectedImageSpec,
    digest: Option<Seq<char>>,
    proc_version: Option<Seq<char>>,
    os_release: Option<Seq<char>>,
    installed: Seq<(Seq<char>, Seq<char>)>,
    others: Seq<Finding>,
    times: CheckTimes,
) -> Seq<Finding> {
    let expected = spec.allowlisted_packages.texts();
    seq![
        image_finding(spec.image_digest@, digest, times.image),
        kernel_finding(spec.kernel_version@, proc_version, times.kernel),
        release_finding(spec.os_release@, os_release, times.release),
    ] + package_findings(expected, installed, expected.len() as int) + seq![
        denied_finding(views(spec.denylisted_packages@), installed, times.denied),
    ] + others
}

/// An image other than the expected one does not pass, nor does one that is not
/// known, whatever the other checks find.
pub proof fn law_tampered_image_is_refused(
    spec: ExpectedImageSpec,
    digest: Option<Seq<char>>,
    proc_version: Option<Seq<char>>,
    os_release: Option<Seq<char>>,
    installed: Seq<(Seq<char>, Seq<char>)>,
    others: Seq<Finding>,
    times: CheckTimes,
)
    requires
        digest is None || without_leading(digest->0, "sha256:"@) != without_leading(
            spec.image_digest@,
            "sha256:"@,
        ),
    ensures
        exists|i: int|
            0 <= i < boot_findings(
                spec,
                digest,
                proc_version,
                os_release,
                installed,
                others,
                times,
            ).len() && !(#[trigger] boot_findings(
                spec,
                digest,
                proc_version,
                os_release,
                installed,
                others,
                times,
            )[i]).passed,
{
    let all = boot_findings(spec, digest, proc_version, os_release, installed, others, times);
    assert(all[0] == image_finding(spec.image_digest@, digest, times.image));
    assert(!all[0].passed);
}

/// The checks of a node, from what was read of it, with other checks after
/// them. No time is noted for the check of a single package.
pub fn node_checks(
    spec: &ExpectedImageSpec,
    digest: Option<String>,
    proc_version: Option<String>,
    os_release: Option<String>,
    installed: &StrMap<String>,
    others: Vec<VerificationCheck>,
    times: CheckTimes,
) -> (r: Vec<VerificationCheck>)
    ensures
        findings(r@) == boot_findings(
            *spec,
            match digest {
                Some(t) => Some(t@),
                None => None,
            },
            match proc_version {
                Some(t) => Some(t@),
                None => None,
            },
            match os_release {
                Some(t) => Some(t@),
                None => None,
            },
            installed.texts(),
            findings(others@),
            times,
        ),
{
    let mut r: Vec<VerificationCheck> = Vec::new();
    r.push(verify_image_digest(spec, digest, times.image));
    r.push(verify_kernel_version(spec, proc_version, times.kernel));
    r.push(verify_os_release(spec, os_release, times.release));
    let ghost first = findings(r@);
    let mut packages = verify_allowlisted_packages(spec, installed);
    let ghost second = findings(packages@);
    r.append(&mut packages);
    assert(findings(r@) =~= first + second);
    let denied = verify_denylisted_packages(spec, installed, times.denied);
    let ghost third = seq![denied@];
    r.push(denied);
    assert(findings(r@) =~= first + second + third);
    let mut rest = others;
    r.append(&mut rest);
    assert(findings(r@) =~= first + second + third + findings(others@));
    r
}

/// How many of the first `n` checks have failed.
pub open spec fn failures(v: Seq<VerificationCheck>, n: int) -> int
    decreases n,
{
    if n <= 0 {
        0
    } else if v[n - 1].passed {
        failures(v, n - 1)
    } else {
        failures(v, n - 1) + 1
    }
}

/// The condition that tells of a node's verification.
pub fn generate_node_condition(result: &NodeBootVerificationResult) -> (r: NodeCondition)
    ensures
        r.condition_type@ == "BootVerified"@,
        r.last_transition_time@ == result.timestamp@,
        result.overall_passed ==> r.status@ == "True"@ && r.reason@ == "BootVerificationPassed"@
            && r.message@ == "All boot verification checks passed"@,
        !result.overall_passed ==> r.status@ == "False"@ && r.reason@ == "BootVerificationFailed"@
            && r.message@ == "Boot verification failed: "@ + decimal(
            failures(result.checks@, result.checks@.len() as int),
        ) + " checks failed"@,
{
    let (status, reason, message) = if result.overall_passed {
        ("True", "BootVerificationPassed", "All boot verification checks passed".to_string())
    } else {
        let mut failed: usize = 0;
        let mut i: usize = 0;
        while i < result.checks.len()
            invariant
                failed <= i <= result.checks.len(),
                failed == failures(result.checks@, i as int),
            decreases result.checks@.len() - i,
        {
            if !result.checks[i].passed {
                failed = failed + 1;
            }
            i = i + 1;
        }
        (
            "False",
            "BootVerificationFailed",
            crate::text::cat3(
                "Boot verification failed: ",
                &decimal_text(failed as u64),
                " checks failed",
            ),
        )
    };
    NodeCondition {
        condition_type: "BootVerified".to_string(),
        status: status.to_string(),
        reason: reason.to_string(),
        message,
        last_transition_time: result.timestamp.clone(),
    }
}

/// The systemd unit of the verification, which runs before the kubelet.
pub const SYSTEMD_UNIT: &'static str = "[Unit]\nDescription=Stellar-K8s Node Boot Verification\nDocumentation=https://github.com/OtowoOrg/Stellar-K8s\nDefaultDependencies=no\nAfter=local-fs.target network-online.target\nBefore=kubelet.service\nConditionPathExists=!/run/node-boot-verified\n\n[Service]\nType=oneshot\nExecStart=/usr/local/bin/stellar-node-boot-verify\nRemainAfterExit=yes\nTimeoutSec=15\nStandardOutput=journal\nStandardError=journal\n\n[Install]\nWantedBy=kubelet.service\n";

/// The systemd unit of the verification.
pub fn generate_systemd_unit() -> (r: String)
    ensures
        r@ == SYSTEMD_UNIT@,
{
    SYSTEMD_UNIT.to_string()
}

/// A check of the image passes where the digest that was read is the expected
/// one, written with its algorithm or without; no digest, or an empty
/// expectation, never passes.
pub proof fn law_image_is_the_expected_one(
    expected: Seq<char>,
    actual: Option<Seq<char>>,
    duration_ms: u64,
)
    ensures
        ({
            let f = image_finding(expected, actual, duration_ms);
            let want = without_leading(expected, "sha256:"@);
            &&& f.passed <==> actual is Some && want.len() > 0 && without_leading(
                actual->0,
                "sha256:"@,
            ) == want
            &&& f.severity == CheckSeverity::Critical && f.duration_ms == duration_ms && f.name
                == "image_digest"@
            &&& actual == Some(expected) && want.len() > 0 ==> f.passed
            &&& actual is None ==> !f.passed
        }),
{
}

/// A check of the kernel passes where the third word of what the kernel says of
/// itself begins with the expected version, or nothing is expected; that of the
/// release where it is the expected one, or nothing is expected.
pub proof fn law_kernel_and_release_are_the_expected_ones(
    expected: Seq<char>,
    text: Seq<char>,
    duration_ms: u64,
)
    ensures
        expected.len() == 0 ==> kernel_finding(expected, Some(text), duration_ms).passed
            && release_finding(expected, Some(text), duration_ms).passed,
        expected.len() > 0 && words(text).len() > 2 ==> (kernel_finding(
            expected,
            Some(text),
            duration_ms,
        ).passed <==> begins_with(words(text)[2], expected)),
        expected.len() > 0 && words(text).len() <= 2 ==> !kernel_finding(
            expected,
            Some(text),
            duration_ms,
        ).passed,
        expected.len() > 0 ==> !kernel_finding(expected, None, duration_ms).passed
            && !release_finding(expected, None, duration_ms).passed,
        expected.len() > 0 ==> (release_finding(expected, Some(text), duration_ms).passed <==> release_in(
            Some(text),
        ) == expected),
        kernel_finding(expected, Some(text), duration_ms).severity == CheckSeverity::Critical,
        release_finding(expected, Some(text), duration_ms).severity == CheckSeverity::Critical,
{
}

/// A version satisfies a constraint where it is the same, or where the
/// constraint ends in a star and the version begins with what stands before it.
pub proof fn law_version_satisfies_its_constraint(p: Seq<char>, rest: Seq<char>)
    requires
        p.len() == 0 || p.last() != '*',
    ensures
        satisfies(p, p),
        satisfies(p + rest, p + seq!['*']),
        rest.len() > 0 ==> !satisfies(p + rest, p),
        satisfies(rest, p + seq!['*']) ==> begins_with(rest, p),
{
    reveal_strlit("*");
    let c = p + seq!['*'];
    assert(c.subrange(c.len() - 1, c.len() as int) =~= "*"@);
    assert(c.drop_last() =~= p);
    reveal_with_fuel(without_trailing, 2);
    assert(without_trailing(c, '*') == p);
    assert((p + rest).subrange(0, p.len() as int) =~= p);
    if ends_in(p, "*"@) {
        assert(p.subrange(p.len() - 1, p.len() as int)[0] == '*');
    }
}

proof fn lemma_package_findings(
    expected: Seq<(Seq<char>, Seq<char>)>,
    installed: Seq<(Seq<char>, Seq<char>)>,
    n: int,
)
    requires
        0 <= n <= expected.len(),
    ensures
        package_findings(expected, installed, n).len() == n,
        forall|i: int|
            0 <= i < n ==> #[trigger] package_findings(expected, installed, n)[i]
                == package_finding(
                expected[i].0,
                expected[i].1,
                entry(installed, expected[i].0),
            ),
    decreases n,
{
    if n > 0 {
        lemma_package_findings(expected, installed, n - 1);
    }
}

/// Every package that is expected is looked at: its check passes where it is
/// installed in a version that satisfies what is asked of it, if anything is.
pub proof fn law_every_package_is_looked_at(
    expected: Seq<(Seq<char>, Seq<char>)>,
    installed: Seq<(Seq<char>, Seq<char>)>,
    i: int,
)
    requires
        0 <= i < expected.len(),
    ensures
        ({
            let all = package_findings(expected, installed, expected.len() as int);
            let (name, constraint) = expected[i];
            let version = entry(installed, name);
            &&& all.len() == expected.len()
            &&& all[i].passed <==> version is Some && (constraint.len() == 0 || satisfies(
                version->0,
                constraint,
            ))
            &&& all[i].severity == CheckSeverity::Critical
        }),
{
    lemma_package_findings(expected, installed, expected.len() as int);
}

/// The denied packages that are installed are found, and no other.
pub proof fn law_denied_packages_are_found(denied: Seq<Seq<char>>, installed: Seq<(Seq<char>, Seq<char>)>, n: int)
    requires
        0 <= n <= denied.len(),
    ensures
        forall|i: int|
            #![trigger denied[i]]
            0 <= i < n && entry(installed, denied[i]) is Some ==> present(denied, installed, n).contains(denied[i]),
        forall|x: Seq<char>| #[trigger]
            present(denied, installed, n).contains(x) ==> exists|i: int|
                #![trigger denied[i]]
                0 <= i < n && entry(installed, denied[i]) is Some && x == denied[i],
    decreases n,
{
    if n > 0 {
        law_denied_packages_are_found(denied, installed, n - 1);
        let p = present(denied, installed, n - 1);
        let r = present(denied, installed, n);
        assert forall|i: int|
            #![trigger denied[i]]
            0 <= i < n && entry(installed, denied[i]) is Some implies r.contains(denied[i]) by {
            if i == n - 1 {
                assert(r[p.len() as int] == denied[i]);
            } else {
                assert(p.contains(denied[i]));
                let k = choose|k: int| 0 <= k < p.len() && p[k] == denied[i];
                assert(r[k] == denied[i]);
            }
        }
        assert forall|x: Seq<char>| #[trigger] r.contains(x) implies exists|i: int|
            #![trigger denied[i]]
            0 <= i < n && entry(installed, denied[i]) is Some && x == denied[i] by {
            let j = choose|j: int| 0 <= j < r.len() && r[j] == x;
            if j < p.len() {
                assert(r[j] == p[j]);
                assert(p.contains(x));
                let i = choose|i: int|
                    #![trigger denied[i]]
                    0 <= i < n - 1 && entry(installed, denied[i]) is Some && x == denied[i];
                assert(entry(installed, denied[i]) is Some && x == denied[i]);
            } else {
                let i = n - 1;
                assert(entry(installed, denied[i]) is Some && x == denied[i]);
            }
        }
    }
}

/// A node is sound just where its image, kernel and release are the expected
/// ones, every expected package is there, no denied one is, and all other
/// checks passed.
pub proof fn law_when_a_node_is_sound(
    spec: ExpectedImageSpec,
    digest: Option<Seq<char>>,
    proc_version: Option<Seq<char>>,
    os_release: Option<Seq<char>>,
    installed: Seq<(Seq<char>, Seq<char>)>,
    others: Seq<Finding>,
    times: CheckTimes,
)
    ensures
        ({
            let all = boot_findings(
                spec,
                digest,
                proc_version,
                os_release,
                installed,
                others,
                times,
            );
            let expected = spec.allowlisted_packages.texts();
            let denied = views(spec.denylisted_packages@);
            (forall|i: int| 0 <= i < all.len() ==> (#[trigger] all[i]).passed) <==> {
                &&& image_finding(spec.image_digest@, digest, times.image).passed
                &&& kernel_finding(spec.kernel_version@, proc_version, times.kernel).passed
                &&& release_finding(spec.os_release@, os_release, times.release).passed
                &&& forall|i: int|
                    0 <= i < expected.len() ==> package_finding(
                        (#[trigger] expected[i]).0,
                        expected[i].1,
                        entry(installed, expected[i].0),
                    ).passed
                &&& forall|i: int|
                    0 <= i < denied.len() ==> entry(installed, #[trigger] denied[i]) is None
                &&& forall|i: int| 0 <= i < others.len() ==> (#[trigger] others[i]).passed
            }
        }),
{
    let all = boot_findings(spec, digest, proc_version, os_release, installed, others, times);
    let expected = spec.allowlisted_packages.texts();
    let denied = views(spec.denylisted_packages@);
    let n = expected.len() as int;
    let packages = package_findings(expected, installed, n);
    lemma_package_findings(expected, installed, n);
    law_denied_packages_are_found(denied, installed, denied.len() as int);
    let found = present(denied, installed, denied.len() as int);
    if found.len() > 0 {
        assert(found.contains(found[0]));
    }
    assert(found.len() == 0 <==> forall|i: int|
        0 <= i < denied.len() ==> entry(installed, #[trigger] denied[i]) is None);
    assert(all[0] == image_finding(spec.image_digest@, digest, times.image));
    assert(all[1] == kernel_finding(spec.kernel_version@, proc_version, times.kernel));
    assert(all[2] == release_finding(spec.os_release@, os_release, times.release));
    assert(all[3 + n] == denied_finding(denied, installed, times.denied));
    assert forall|i: int| 0 <= i < n implies all[3 + i] == #[trigger] packages[i] by {}
    assert forall|i: int| 0 <= i < others.len() implies all[4 + n + i] == #[trigger] others[i] by {}
    if forall|i: int| 0 <= i < all.len() ==> (#[trigger] all[i]).passed {
        assert forall|i: int| 0 <= i < expected.len() implies package_finding(
            (#[trigger] expected[i]).0,
            expected[i].1,
            entry(installed, expected[i].0),
        ).passed by {
            assert(all[3 + i] == packages[i]);
        }
        assert forall|i: int| 0 <= i < others.len() implies (#[trigger] others[i]).passed by {
            assert(all[4 + n + i] == others[i]);
        }
    } else {
        let i = choose|i: int| 0 <= i < all.len() && !(#[trigger] all[i]).passed;
        if 3 <= i < 3 + n {
            assert(all[i] == packages[i - 3]);
            assert(!package_finding(
                expected[i - 3].0,
                expected[i - 3].1,
                entry(installed, expected[i - 3].0),
            ).passed);
        } else if i >= 4 + n {
            assert(all[i] == others[i - 4 - n]);
        }
    }
}

/// Of the lines that name a package the last one tells its version, and a line
/// of another package tells nothing of it.
pub proof fn law_last_line_tells_the_version(v: Seq<Seq<char>>, n: int, name: Seq<char>)
    requires
        0 < n <= v.len(),
    ensures
        ascending(packages_upto(v, n)),
        (match split_at_first(v[n - 1], " "@) {
            Some((found, version)) => entry(packages_upto(v, n), name) == if found == name {
                Some(version)
            } else {
                entry(packages_upto(v, n - 1), name)
            },
            None => packages_upto(v, n) == packages_upto(v, n - 1),
        }),
    decreases n,
{
    if n > 1 {
        law_last_line_tells_the_version(v, n - 1, name);
    }
    let before = packages_upto(v, n - 1);
    assert(ascending(before));
    if let Some((found, version)) = split_at_first(v[n - 1], " "@) {
        lemma_with_entry_ascending(before, found, version);
        lemma_read_after_write(before, found, version, name);
    }
}


/// The check did not pass.
pub open spec fn did_not_pass() -> spec_fn(VerificationCheck) -> bool {
    |e: VerificationCheck| !e.passed
}

/// The checks that did not pass are counted.
pub proof fn law_failed_checks_are_counted(v: Seq<VerificationCheck>, n: int)
    requires
        0 <= n <= v.len(),
    ensures
        failures(v, n) == v.subrange(0, n).filter(did_not_pass()).len(),
    decreases n,
{
    reveal(Seq::filter);
    let s = v.subrange(0, n);
    if n > 0 {
        law_failed_checks_are_counted(v, n - 1);
        assert(s.drop_last() =~= v.subrange(0, n - 1));
        assert(s.last() == v[n - 1]);
    }
}

proof fn lemma_first_line(v: Seq<Seq<char>>, p: Seq<char>, i: int)
    requires
        0 <= i,
    ensures
        (match first_line(v, p, i) {
            Some(line) => exists|k: int|
                i <= k < v.len() && #[trigger] v[k] == line && begins_with(line, p) && forall|j: int|
                    i <= j < k ==> !begins_with(#[trigger] v[j], p),
            None => forall|j: int| i <= j < v.len() ==> !begins_with(#[trigger] v[j], p),
        }),
    decreases v.len() - i,
{
    if i < v.len() {
        lemma_first_line(v, p, i + 1);
        if begins_with(v[i], p) {
            assert(v[i] == first_line(v, p, i)->0);
        }
    }
}

/// The release of a system stands on the first line that tells it.
pub proof fn law_first_line_is_taken(v: Seq<Seq<char>>, p: Seq<char>)
    ensures
        (match first_line(v, p, 0) {
            Some(line) => exists|k: int|
                0 <= k < v.len() && #[trigger] v[k] == line && begins_with(line, p) && forall|j: int|
                    0 <= j < k ==> !begins_with(#[trigger] v[j], p),
            None => forall|j: int| 0 <= j < v.len() ==> !begins_with(#[trigger] v[j], p),
        }),
{
    lemma_first_line(v, p, 0);
}

/// The packages are those of the first listing that tells any.
pub proof fn law_first_listing_is_taken(outputs: Seq<String>, i: int, k: int)
    requires
        0 <= i <= k < outputs.len(),
        packages_in(outputs[k]@).len() > 0,
        forall|j: int| i <= j < k ==> packages_in((#[trigger] outputs[j])@).len() == 0,
    ensures
        first_packages(outputs, i) == packages_in(outputs[k]@),
    decreases k - i,
{
    if i < k {
        assert(packages_in(outputs[i]@).len() == 0);
        law_first_listing_is_taken(outputs, i + 1, k);
    }
}

proof fn lemma_first_is(s: Seq<char>, p: Seq<char>, k: int)
    requires
        occurs_at(s, p, k),
        p.len() > 0,
        forall|j: int| 0 <= j < k ==> s[j] != p[0],
    ensures
        first_place(s, p, 0) == Some(k),
{
    law_first_place_is_the_first(s, p, 0, k);
    if let Some(q) = first_place(s, p, 0) {
        if q < k {
            assert(s.subrange(q, q + p.len())[0] == s[q]);
        }
    }
}

proof fn lemma_between(a: Seq<char>, p: Seq<char>, b: Seq<char>)
    requires
        p.len() > 0,
        !a.contains(p[0]),
    ensures
        first_place(a + p + b, p, 0) == Some(a.len() as int),
        (a + p + b).subrange(0, a.len() as int) == a,
{
    let s = a + p + b;
    let n = a.len() as int;
    assert(s.subrange(n, n + p.len()) =~= p);
    assert(s.subrange(0, n) =~= a);
    assert forall|j: int| 0 <= j < n implies s[j] != p[0] by {
        assert(a.contains(a[j]));
    }
    lemma_first_is(s, p, n);
}

/// The digest of an image is what stands in quotation marks behind its name.
pub proof fn law_digest_is_read(before: Seq<char>, digest: Seq<char>, after: Seq<char>)
    requires
        !before.contains('"'),
        !digest.contains('"'),
    ensures
        digest_in(before + "\"id\": \"sha256:"@ + (digest + "\""@ + after)) == Some(
            "sha256:"@ + digest,
        ),
{
    let mark = "\"id\": \"sha256:"@;
    let quote = "\""@;
    let head = "sha256:"@;
    reveal_strlit("\"id\": \"sha256:");
    reveal_strlit("\"");
    reveal_strlit("sha256:");
    assert(mark[0] == '"');
    assert(quote[0] == '"');
    let tail = digest + quote + after;
    let s = before + mark + tail;
    let n = before.len() as int;
    lemma_between(before, mark, tail);
    let rest = s.subrange(n + 7, s.len() as int);
    assert(mark.subrange(7, 14) =~= head);
    assert(rest =~= mark.subrange(7, 14) + tail);
    assert(rest =~= (head + digest) + quote + after);
    assert(!(head + digest).contains('"')) by {
        if (head + digest).contains('"') {
            let k = choose|k: int| 0 <= k < (head + digest).len() && (head + digest)[k] == '"';
            if k >= 7 {
                assert(digest[k - 7] == '"');
            } else {
                assert(head[k] == '"');
            }
        }
    }
    lemma_between(head + digest, quote, after);
}

/// The check of the packages that may not be there fails just where one of them is
/// installed, and then names those; it is critical either way.
pub proof fn law_denied_packages_are_named(
    denied: Seq<Seq<char>>,
    installed: Seq<(Seq<char>, Seq<char>)>,
    duration_ms: u64,
)
    ensures
        ({
            let f = denied_finding(denied, installed, duration_ms);
            let found = present(denied, installed, denied.len() as int);
            &&& f.name == "denylisted_packages"@
            &&& f.duration_ms == duration_ms
            &&& f.severity == CheckSeverity::Critical
            &&& f.passed <==> found.len() == 0
            &&& f.passed ==> f.message == "No denylisted packages found"@
            &&& !f.passed ==> f.message == "Denylisted packages found: "@ + joined(found, ", "@)
        }),
{
}

} // verus!
