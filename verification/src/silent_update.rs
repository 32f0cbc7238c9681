//! The update that the launcher prepares by itself while it runs.

use vstd::prelude::*;

use crate::download;
use crate::strings;
use crate::text;
use crate::update;
use crate::versions;

verus! {

/// Where the manifest is looked for when nothing else is configured.
pub const DEFAULT_UPDATE_ENDPOINT: &'static str = "https://alas.nanoda.work/updata/stable.json";

/// How long after its start the launcher looks for an update.
pub const UPDATE_CHECK_DELAY_SECS: u64 = 45;

/// The script that puts an update in place on Windows.
pub const WINDOWS_UPDATE_SCRIPT: &'static str = "
param(
  [int]$ParentPid,
  [string]$Source,
  [string]$Target
)
$ErrorActionPreference = \"SilentlyContinue\"
for ($i = 0; $i -lt 240; $i++) {
  if (-not (Get-Process -Id $ParentPid -ErrorAction SilentlyContinue)) {
    break
  }
  Start-Sleep -Milliseconds 250
}
Copy-Item -LiteralPath $Source -Destination $Target -Force
$env:ALAS_LAUNCHER_REATTACH = \"1\"
$env:ALAS_LAUNCHER_REATTACH_OWNER_PID = \"$ParentPid\"
Start-Process -FilePath $Target -WindowStyle Hidden
Remove-Item -LiteralPath $Source -Force -ErrorAction SilentlyContinue
Remove-Item -LiteralPath $PSCommandPath -Force -ErrorAction SilentlyContinue
";

/// The arguments of PowerShell before the path of the script.
pub const WINDOWS_UPDATE_ARGS: [&'static str; 6] = [
    "-NoProfile",
    "-ExecutionPolicy",
    "Bypass",
    "-WindowStyle",
    "Hidden",
    "-File",
];

/// The entries of a list of endpoints, without white space around them, up to the entry `n`, those
/// left out of which nothing is left.
pub open spec fn entries(pieces: Seq<Seq<char>>, n: int) -> Seq<Seq<char>>
    decreases n,
{
    if n <= 0 {
        Seq::empty()
    } else {
        let entry = text::trim(pieces[n - 1]);
        if entry.len() == 0 {
            entries(pieces, n - 1)
        } else {
            entries(pieces, n - 1).push(entry)
        }
    }
}

/// The endpoints that `raw` lists between semicolons.
pub open spec fn configured_endpoints(raw: Seq<char>) -> Seq<Seq<char>> {
    let pieces = text::split(raw, ';');
    entries(pieces, pieces.len() as int)
}

/// The endpoints to ask: those configured, or else the default one.
pub open spec fn endpoints(raw: Option<Seq<char>>) -> Seq<Seq<char>> {
    match raw {
        Some(raw) => if configured_endpoints(raw).len() > 0 {
            configured_endpoints(raw)
        } else {
            seq![DEFAULT_UPDATE_ENDPOINT@]
        },
        None => seq![DEFAULT_UPDATE_ENDPOINT@],
    }
}

fn listed_endpoints(raw: &str) -> (r: Vec<String>)
    ensures
        text::views(r@) == configured_endpoints(raw@),
{
    let pieces = strings::pieces(&strings::chars_of(raw), ';');
    let mut configured: Vec<String> = Vec::new();
    let ghost views = text::split(raw@, ';');
    assert(text::views(configured@) =~= Seq::empty());
    for i in 0..pieces.len()
        invariant
            views == strings::char_views(pieces@),
            text::views(configured@) == entries(views, i as int),
    {
        assert(views[i as int] == pieces@[i as int]@);
        let entry = strings::trimmed(&pieces[i]);
        if entry.len() > 0 {
            let ghost so_far = text::views(configured@);
            configured.push(strings::string_of(&entry));
            assert(text::views(configured@) =~= so_far.push(entry@));
        }
    }
    configured
}

/// The endpoints to ask, where `raw` is what is configured.
pub fn update_endpoints(raw: Option<&str>) -> (r: Vec<String>)
    ensures
        text::views(r@) == endpoints(
            match raw {
                Some(raw) => Some(raw@),
                None => None,
            },
        ),
{
    if let Some(raw) = raw {
        let configured = listed_endpoints(raw);
        if configured.len() > 0 {
            assert(text::views(configured@).len() == configured@.len());
            return configured;
        }
        assert(configured_endpoints(raw@).len() == configured@.len());
    }
    let mut default: Vec<String> = Vec::new();
    default.push(DEFAULT_UPDATE_ENDPOINT.to_owned());
    assert(text::views(default@) =~= seq![DEFAULT_UPDATE_ENDPOINT@]);
    default
}

/// There is always an endpoint to ask, and none is blank.
pub proof fn there_is_an_endpoint(raw: Option<Seq<char>>)
    ensures
        endpoints(raw).len() > 0,
        forall|i: int|
            0 <= i < endpoints(raw).len() ==> (#[trigger] endpoints(raw)[i]).len() > 0,
{
    reveal_strlit("https://alas.nanoda.work/updata/stable.json");
    if let Some(raw) = raw {
        let pieces = text::split(raw, ';');
        lemma_entries(pieces, pieces.len() as int);
    }
}

proof fn lemma_entries(pieces: Seq<Seq<char>>, n: int)
    ensures
        forall|i: int|
            0 <= i < entries(pieces, n).len() ==> (#[trigger] entries(pieces, n)[i]).len() > 0,
    decreases n,
{
    if n > 0 {
        lemma_entries(pieces, n - 1);
        let fewer = entries(pieces, n - 1);
        assert forall|i: int| 0 <= i < entries(pieces, n).len() implies (#[trigger] entries(
            pieces,
            n,
        )[i]).len() > 0 by {
            if i < fewer.len() {
                assert(entries(pieces, n)[i] == fewer[i]);
            }
        }
    }
}

/// Endpoints that are listed with semicolons between them are asked in that order, each as it was
/// listed.
pub proof fn listed_endpoints_are_asked_in_order(listed: Seq<Seq<char>>)
    requires
        listed.len() > 0,
        forall|i: int|
            0 <= i < listed.len() ==> {
                let entry = #[trigger] listed[i];
                &&& entry.len() > 0
                &&& !entry.contains(';')
                &&& text::trim(entry) == entry
            },
    ensures
        endpoints(Some(text::join(listed, seq![';']))) == listed,
{
    lemma_split_joined(listed);
    lemma_entries_kept(listed, listed.len() as int);
    assert(listed.take(listed.len() as int) =~= listed);
}

proof fn lemma_split_joined(listed: Seq<Seq<char>>)
    requires
        listed.len() > 0,
        forall|i: int| 0 <= i < listed.len() ==> !(#[trigger] listed[i]).contains(';'),
    ensures
        text::split(text::join(listed, seq![';']), ';') == listed,
    decreases listed.len(),
{
    if listed.len() == 1 {
        text::lemma_split_none(listed[0], ';');
        assert(seq![listed[0]] =~= listed);
    } else {
        let rest = listed.skip(1);
        assert forall|i: int| 0 <= i < rest.len() implies !(#[trigger] rest[i]).contains(';') by {
            assert(rest[i] == listed[i + 1]);
        }
        lemma_split_joined(rest);
        text::lemma_join_first(listed, seq![';']);
        text::lemma_split_first(listed[0], ';', text::join(rest, seq![';']));
        assert(seq![listed[0]] + rest =~= listed);
    }
}

proof fn lemma_entries_kept(listed: Seq<Seq<char>>, n: int)
    requires
        0 <= n <= listed.len(),
        forall|i: int|
            0 <= i < listed.len() ==> (#[trigger] listed[i]).len() > 0 && text::trim(listed[i])
                == listed[i],
    ensures
        entries(listed, n) == listed.take(n),
    decreases n,
{
    if n > 0 {
        lemma_entries_kept(listed, n - 1);
        assert(listed.take(n) =~= listed.take(n - 1).push(listed[n - 1]));
    } else {
        assert(listed.take(n) =~= Seq::empty());
    }
}

/// White space around the entries of a list, and entries without anything in them, make no
/// difference to the endpoints.
pub proof fn blank_entries_are_passed_over(pieces: Seq<Seq<char>>, n: int)
    requires
        0 < n <= pieces.len(),
    ensures
        text::is_blank(pieces[n - 1]) ==> entries(pieces, n) == entries(pieces, n - 1),
        !text::is_blank(pieces[n - 1]) ==> entries(pieces, n) == entries(pieces, n - 1).push(
            text::trim(pieces[n - 1]),
        ),
{
}

/// What came back from an endpoint.
#[derive(Debug)]
pub enum EndpointReply {
    Unreachable { error: String },
    /// An answer with another status than success.
    Refused { status: String },
    /// An answer that holds no manifest.
    Invalid,
    Manifest,
}

/// Whether the status of an endpoint's answer is another than success.
pub fn endpoint_refuses(status: u16) -> (r: bool)
    ensures
        r == !download::is_success(status),
{
    !(200 <= status && status < 300)
}

/// The search for a manifest, endpoint by endpoint.
#[derive(Debug)]
pub struct ManifestSearch {
    pub asked: usize,
    pub last_error: Option<String>,
}

/// What comes next in the search.
#[derive(Debug)]
pub enum SearchStep {
    /// Ask the endpoint with this index.
    Ask { index: usize },
    /// The manifest has come from the endpoint with this index.
    Found { index: usize },
    Failed { error: String },
}

/// What is said of an endpoint that gave no manifest.
pub open spec fn endpoint_error(endpoint: Seq<char>, reply: EndpointReply) -> Seq<char> {
    match reply {
        EndpointReply::Unreachable { error } => "failed to request "@ + endpoint + ": "@ + error@,
        EndpointReply::Refused { status } => "endpoint "@ + endpoint + " returned status "@
            + status@,
        EndpointReply::Invalid => "invalid update manifest from "@ + endpoint,
        EndpointReply::Manifest => Seq::empty(),
    }
}

impl ManifestSearch {
    /// A search that has asked no endpoint.
    pub fn new() -> (r: Self)
        ensures
            r.asked == 0,
            r.last_error is None,
    {
        ManifestSearch { asked: 0, last_error: None }
    }

    /// What comes next: the endpoint after those asked, or the last error where none is left.
    pub open spec fn next(self, endpoints: Seq<Seq<char>>, step: SearchStep) -> bool {
        if self.asked < endpoints.len() {
            step == (SearchStep::Ask { index: self.asked })
        } else {
            step matches SearchStep::Failed { error } && error@ == match self.last_error {
                Some(last) => last@,
                None => "no update endpoint configured"@,
            }
        }
    }

    /// What comes next.
    pub fn next_endpoint(&self, endpoints: &Vec<String>) -> (r: SearchStep)
        ensures
            self.next(text::views(endpoints@), r),
    {
        assert(text::views(endpoints@).len() == endpoints@.len());
        if self.asked < endpoints.len() {
            return SearchStep::Ask { index: self.asked };
        }
        match &self.last_error {
            Some(last) => SearchStep::Failed { error: last.clone() },
            None => SearchStep::Failed { error: "no update endpoint configured".to_owned() },
        }
    }

    /// After the reply of the next endpoint the search stands at `after`, and `step` comes next.
    pub open spec fn goes_on(
        self,
        endpoints: Seq<Seq<char>>,
        reply: EndpointReply,
        after: ManifestSearch,
        step: SearchStep,
    ) -> bool {
        let endpoint = endpoints[self.asked as int];
        &&& after.asked == self.asked + 1
        &&& match reply {
            EndpointReply::Manifest => step == (SearchStep::Found { index: self.asked })
                && after.last_error == self.last_error,
            EndpointReply::Invalid => step matches SearchStep::Failed { error } && error@
                == endpoint_error(endpoint, reply) && after.last_error == self.last_error,
            _ => after.last_error matches Some(last) && last@ == endpoint_error(endpoint, reply)
                && after.next(endpoints, step),
        }
    }

    /// Takes account of the reply of the next endpoint. One that cannot be reached, or refuses, is
    /// passed over; one that answers without a manifest ends the search.
    pub fn fetch_manifest(&mut self, endpoints: &Vec<String>, reply: EndpointReply) -> (r:
        SearchStep)
        requires
            old(self).asked < endpoints@.len(),
        ensures
            final(self).asked == old(self).asked + 1,
            old(self).goes_on(text::views(endpoints@), reply, *final(self), r),
    {
        let total: usize = endpoints.len();
        let index: usize = self.asked;
        assert(index < total);
        let endpoint = endpoints[index].as_str();
        assert(text::views(endpoints@)[index as int] == endpoint@);
        self.asked = index + 1;
        match reply {
            EndpointReply::Manifest => SearchStep::Found { index },
            EndpointReply::Invalid => {
                let mut error: String = "invalid update manifest from ".to_owned();
                error.append(endpoint);
                SearchStep::Failed { error }
            },
            EndpointReply::Unreachable { error } => {
                let mut message: String = "failed to request ".to_owned();
                message.append(endpoint);
                message.append(": ");
                message.append(error.as_str());
                self.last_error = Some(message);
                self.next_endpoint(endpoints)
            },
            EndpointReply::Refused { status } => {
                let mut message: String = "endpoint ".to_owned();
                message.append(endpoint);
                message.append(" returned status ");
                message.append(status.as_str());
                self.last_error = Some(message);
                self.next_endpoint(endpoints)
            },
        }
    }
}

/// The search takes the manifest of the endpoint that it has asked. One that cannot be reached, or
/// refuses, has the next endpoint asked, or, where it was the last, ends the search with an error
/// that names it; and one that answers without a manifest ends the search at once.
pub proof fn the_endpoints_are_asked_one_after_the_other(
    search: ManifestSearch,
    endpoints: Seq<Seq<char>>,
    reply: EndpointReply,
    after: ManifestSearch,
    step: SearchStep,
)
    requires
        search.asked < endpoints.len() <= usize::MAX,
        search.goes_on(endpoints, reply, after, step),
    ensures
        reply is Manifest <==> step is Found,
        step matches SearchStep::Found { index } ==> index == search.asked,
        (reply is Unreachable || reply is Refused) && search.asked + 1 < endpoints.len()
            ==> (step matches SearchStep::Ask { index } && index == search.asked + 1),
        (reply is Unreachable || reply is Refused) && search.asked + 1 == endpoints.len()
            ==> (step matches SearchStep::Failed { error } && text::contains(
            error@,
            endpoints[search.asked as int],
        )),
        reply is Invalid ==> (step matches SearchStep::Failed { error } && text::contains(
            error@,
            endpoints[search.asked as int],
        )),
        reply is Unreachable ==> (step matches SearchStep::Failed { error } ==> text::contains(
            error@,
            reply->Unreachable_error@,
        )),
        reply is Refused ==> (step matches SearchStep::Failed { error } ==> text::contains(
            error@,
            reply->Refused_status@,
        )),
{
    let endpoint = endpoints[search.asked as int];
    text::lemma_contains_itself(endpoint);
    match reply {
        EndpointReply::Unreachable { error } => {
            let rest = ": "@ + error@;
            text::lemma_contains_within("failed to request "@, endpoint, rest, endpoint);
            assert("failed to request "@ + endpoint + rest =~= endpoint_error(endpoint, reply));
            text::lemma_contains_itself(error@);
            text::lemma_contains_within(
                "failed to request "@ + endpoint + ": "@,
                error@,
                Seq::empty(),
                error@,
            );
            assert("failed to request "@ + endpoint + ": "@ + error@ + Seq::empty()
                =~= endpoint_error(endpoint, reply));
        },
        EndpointReply::Refused { status } => {
            let rest = " returned status "@ + status@;
            text::lemma_contains_within("endpoint "@, endpoint, rest, endpoint);
            assert("endpoint "@ + endpoint + rest =~= endpoint_error(endpoint, reply));
            text::lemma_contains_itself(status@);
            text::lemma_contains_within(
                "endpoint "@ + endpoint + " returned status "@,
                status@,
                Seq::empty(),
                status@,
            );
            assert("endpoint "@ + endpoint + " returned status "@ + status@ + Seq::empty()
                =~= endpoint_error(endpoint, reply));
        },
        EndpointReply::Invalid => {
            text::lemma_contains_within(
                "invalid update manifest from "@,
                endpoint,
                Seq::empty(),
                endpoint,
            );
            assert("invalid update manifest from "@ + endpoint + Seq::empty() =~= endpoint_error(
                endpoint,
                reply,
            ));
        },
        EndpointReply::Manifest => {},
    }
}

/// The name of the operating system in a platform key.
pub open spec fn os_name(os: Seq<char>) -> Option<Seq<char>> {
    if os == "windows"@ {
        Some("windows"@)
    } else if os == "macos"@ {
        Some("darwin"@)
    } else if os == "linux"@ {
        Some("linux"@)
    } else {
        None
    }
}

/// The name of the processor in a platform key.
pub open spec fn arch_name(arch: Seq<char>) -> Option<Seq<char>> {
    if arch == "x86_64"@ {
        Some("x86_64"@)
    } else if arch == "aarch64"@ {
        Some("aarch64"@)
    } else if arch == "x86"@ {
        Some("i686"@)
    } else if arch == "arm"@ {
        Some("armv7"@)
    } else {
        None
    }
}

/// The key is that of the platform, or the error says what of it is not known.
pub open spec fn is_platform_key(
    os: Seq<char>,
    arch: Seq<char>,
    key: Result<String, String>,
) -> bool {
    match os_name(os) {
        None => key matches Err(e) && e@ == "unsupported operating system for launcher updater"@,
        Some(os) => match arch_name(arch) {
            None => key matches Err(e) && e@ == "unsupported architecture for launcher updater: "@
                + arch,
            Some(name) => key matches Ok(key) && key@ == os + "-"@ + name,
        },
    }
}

/// The key of a platform in a manifest.
pub fn platform_key(os: &str, arch: &str) -> (r: Result<String, String>)
    ensures
        is_platform_key(os@, arch@, r),
{
    let mut key: String = if strings::same_text(os, "windows") {
        "windows".to_owned()
    } else if strings::same_text(os, "macos") {
        "darwin".to_owned()
    } else if strings::same_text(os, "linux") {
        "linux".to_owned()
    } else {
        return Err("unsupported operating system for launcher updater".to_owned());
    };
    key.append("-");
    if strings::same_text(arch, "x86_64") {
        key.append("x86_64");
    } else if strings::same_text(arch, "aarch64") {
        key.append("aarch64");
    } else if strings::same_text(arch, "x86") {
        key.append("i686");
    } else if strings::same_text(arch, "arm") {
        key.append("armv7");
    } else {
        let mut message: String = "unsupported architecture for launcher updater: ".to_owned();
        message.append(arch);
        return Err(message);
    }
    Ok(key)
}

/// What a manifest leads to.
#[derive(Debug)]
pub enum SilentUpdate {
    UpToDate,
    Download { release: update::PlatformRelease },
}

/// Why a manifest leads to nothing.
#[derive(Debug)]
pub enum SilentUpdateError {
    Version { cause: versions::InvalidVersion },
    Platform { message: String },
}

/// What a manifest leads to, where it is known whether its version is `newer`: nothing, or the
/// release for the platform.
pub open spec fn manifest_leads_to(
    newer: bool,
    manifest: update::UpdateManifest,
    os: Seq<char>,
    arch: Seq<char>,
    result: Result<SilentUpdate, SilentUpdateError>,
) -> bool {
    if !newer {
        result == Ok::<SilentUpdate, SilentUpdateError>(SilentUpdate::UpToDate)
    } else {
        match (os_name(os), arch_name(arch)) {
            (Some(os), Some(name)) => {
                let key = os + "-"@ + name;
                match update::release_for(manifest, key) {
                    Some(release) => result == Ok::<SilentUpdate, SilentUpdateError>(
                        SilentUpdate::Download { release },
                    ),
                    None => result matches Err(SilentUpdateError::Platform { message })
                        && message@ == "No update payload for platform "@ + key,
                }
            },
            _ => result matches Err(SilentUpdateError::Platform { message }) && is_platform_key(
                os,
                arch,
                Err(message),
            ),
        }
    }
}

/// What a manifest leads to, where it is known whether its version is newer.
pub fn release_if_newer(
    newer: bool,
    manifest: &update::UpdateManifest,
    os: &str,
    arch: &str,
) -> (r: Result<SilentUpdate, SilentUpdateError>)
    ensures
        manifest_leads_to(newer, *manifest, os@, arch@, r),
{
    if !newer {
        return Ok(SilentUpdate::UpToDate);
    }
    match platform_key(os, arch) {
        Err(message) => Err(SilentUpdateError::Platform { message }),
        Ok(key) => match update::find_release(manifest, key.as_str()) {
            Some(release) => Ok(SilentUpdate::Download { release }),
            None => {
                let mut message: String = "No update payload for platform ".to_owned();
                message.append(key.as_str());
                Err(SilentUpdateError::Platform { message })
            },
        },
    }
}

/// What a manifest leads to for a launcher of the version `current`: an error for the first version
/// that semver does not read, or else what comes of the comparison of the two.
pub open spec fn leads_to(
    current: Seq<char>,
    manifest: update::UpdateManifest,
    os: Seq<char>,
    arch: Seq<char>,
    result: Result<SilentUpdate, SilentUpdateError>,
) -> bool {
    match versions::semver_of(versions::semver_text(current)) {
        None => result matches Err(SilentUpdateError::Version { cause }) && cause.message@
            == "invalid semver version: "@ + current,
        Some(c) => match versions::semver_of(versions::semver_text(manifest.version@)) {
            None => result matches Err(SilentUpdateError::Version { cause }) && cause.message@
                == "invalid semver version: "@ + manifest.version@,
            Some(t) => manifest_leads_to(versions::semver_newer(c, t), manifest, os, arch, result),
        },
    }
}

/// A manifest whose version has a larger major number, or the same and a larger minor one, or the
/// same two and a larger patch number, has the release for the platform downloaded; one with smaller
/// numbers, or the very version that runs, has nothing done, whatever releases it names.
pub proof fn a_newer_manifest_is_downloaded(
    current: Seq<char>,
    manifest: update::UpdateManifest,
    os: Seq<char>,
    arch: Seq<char>,
    result: Result<SilentUpdate, SilentUpdateError>,
    c: (u64, u64, u64, Seq<char>, Seq<char>),
    t: (u64, u64, u64, Seq<char>, Seq<char>),
    os_key: Seq<char>,
    arch_key: Seq<char>,
    release: update::PlatformRelease,
)
    requires
        leads_to(current, manifest, os, arch, result),
        versions::semver_of(versions::semver_text(current)) == Some(c),
        versions::semver_of(versions::semver_text(manifest.version@)) == Some(t),
        os_name(os) == Some(os_key),
        arch_name(arch) == Some(arch_key),
        update::release_for(manifest, os_key + "-"@ + arch_key) == Some(release),
    ensures
        c.0 < t.0 || (c.0 == t.0 && c.1 < t.1) || (c.0 == t.0 && c.1 == t.1 && c.2 < t.2)
            ==> result == Ok::<SilentUpdate, SilentUpdateError>(SilentUpdate::Download { release }),
        t.0 < c.0 || (c.0 == t.0 && t.1 < c.1) || (c.0 == t.0 && c.1 == t.1 && t.2 < c.2)
            ==> result == Ok::<SilentUpdate, SilentUpdateError>(SilentUpdate::UpToDate),
        result matches Ok(SilentUpdate::Download { release: taken }) ==> taken == release,
{
    versions::the_first_semver_number_that_differs_decides(c, t);
    versions::the_first_semver_number_that_differs_decides(t, c);
}

/// A launcher for which the manifest has no release, or whose platform has no name in manifests, is
/// told so where the manifest is newer, and never has another platform's release downloaded.
pub proof fn only_the_own_platform_is_updated(
    manifest: update::UpdateManifest,
    os: Seq<char>,
    arch: Seq<char>,
    result: Result<SilentUpdate, SilentUpdateError>,
)
    requires
        manifest_leads_to(true, manifest, os, arch, result),
    ensures
        result is Ok <==> (os_name(os) is Some && arch_name(arch) is Some && update::release_for(
            manifest,
            os_name(os)->0 + "-"@ + arch_name(arch)->0,
        ) is Some),
        result matches Ok(done) ==> done is Download,
        result matches Err(error) ==> error is Platform,
{
}

/// No two platforms have the same key.
pub proof fn platforms_have_keys_of_their_own(
    os: Seq<char>,
    arch: Seq<char>,
    other_os: Seq<char>,
    other_arch: Seq<char>,
)
    requires
        os_name(os) is Some,
        arch_name(arch) is Some,
        os_name(other_os) is Some,
        arch_name(other_arch) is Some,
        os_name(os)->0 + "-"@ + arch_name(arch)->0 == os_name(other_os)->0 + "-"@ + arch_name(
            other_arch,
        )->0,
    ensures
        os == other_os,
        arch == other_arch,
{
    reveal_strlit("windows");
    reveal_strlit("darwin");
    reveal_strlit("linux");
    reveal_strlit("x86_64");
    reveal_strlit("aarch64");
    reveal_strlit("i686");
    reveal_strlit("armv7");
    reveal_strlit("-");
    let (a, b) = (os_name(os)->0, os_name(other_os)->0);
    let (c, d) = (arch_name(arch)->0, arch_name(other_arch)->0);
    let dash = seq!['-'];
    assert("-"@ =~= dash);
    assert(!a.contains('-'));
    assert(!b.contains('-'));
    text::lemma_split_once_char(a, '-', c);
    text::lemma_split_once_char(b, '-', d);
    assert(a == b && c == d);
    assert("windows"@[0] == 'w' && "darwin"@[0] == 'd' && "linux"@[0] == 'l');
    assert("x86_64"@[0] == 'x' && "aarch64"@[1] == 'a' && "i686"@[0] == 'i' && "armv7"@[1] == 'r');
    assert("aarch64"@[0] == 'a' && "armv7"@[0] == 'a');
}

/// The two ways to name a platform agree wherever the update at the start knows it: each then gives
/// the operating system, a hyphen and the processor by the same names. It does not know 32-bit
/// processors but on Windows, nor ARM ones of 32 bits at all.
pub proof fn both_updates_name_platforms_alike(os: Seq<char>, arch: Seq<char>)
    ensures
        update::launcher_platform(os, arch) != "unknown"@ ==> os_name(os) is Some && arch_name(
            arch,
        ) is Some && update::launcher_platform(os, arch) == os_name(os)->0 + "-"@ + arch_name(
            arch,
        )->0,
        os_name(os) is Some && (arch == "x86_64"@ || arch == "aarch64"@) ==> update::launcher_platform(
            os,
            arch,
        ) == os_name(os)->0 + "-"@ + arch_name(arch)->0,
        os == "windows"@ && arch == "x86"@ ==> update::launcher_platform(os, arch) == os_name(
            os,
        )->0 + "-"@ + arch_name(arch)->0,
{
    reveal_strlit("windows");
    reveal_strlit("macos");
    reveal_strlit("darwin");
    reveal_strlit("linux");
    reveal_strlit("x86_64");
    reveal_strlit("aarch64");
    reveal_strlit("x86");
    reveal_strlit("i686");
    reveal_strlit("-");
    reveal_strlit("darwin-aarch64");
    reveal_strlit("darwin-x86_64");
    reveal_strlit("linux-x86_64");
    reveal_strlit("linux-aarch64");
    reveal_strlit("windows-x86_64");
    reveal_strlit("windows-i686");
    reveal_strlit("windows-aarch64");
    assert("windows"@.len() == 7 && "macos"@[0] == 'm' && "linux"@[0] == 'l' && "windows"@[0] == 'w');
    assert("x86_64"@.len() == 6 && "aarch64"@.len() == 7 && "x86"@.len() == 3);
    assert("darwin"@ + "-"@ + "aarch64"@ =~= "darwin-aarch64"@);
    assert("darwin"@ + "-"@ + "x86_64"@ =~= "darwin-x86_64"@);
    assert("linux"@ + "-"@ + "x86_64"@ =~= "linux-x86_64"@);
    assert("linux"@ + "-"@ + "aarch64"@ =~= "linux-aarch64"@);
    assert("windows"@ + "-"@ + "x86_64"@ =~= "windows-x86_64"@);
    assert("windows"@ + "-"@ + "i686"@ =~= "windows-i686"@);
    assert("windows"@ + "-"@ + "aarch64"@ =~= "windows-aarch64"@);
}

/// What a manifest leads to for a launcher of the version `current`.
pub fn check_and_apply_update(
    current: &str,
    manifest: &update::UpdateManifest,
    os: &str,
    arch: &str,
) -> (r: Result<SilentUpdate, SilentUpdateError>)
    ensures
        leads_to(current@, *manifest, os@, arch@, r),
{
    match versions::target_is_newer(current, manifest.version.as_str()) {
        Err(cause) => Err(SilentUpdateError::Version { cause }),
        Ok(newer) => release_if_newer(newer, manifest, os, arch),
    }
}

/// Checks the status of the answer that is to hold an update.
pub fn check_payload_status(status: u16, status_text: &str) -> (r: Result<(), String>)
    ensures
        r is Ok <==> download::is_success(status),
        r matches Err(e) ==> e@ == "update payload request failed with status "@ + status_text@,
{
    if 200 <= status && status < 300 {
        return Ok(());
    }
    let mut message: String = "update payload request failed with status ".to_owned();
    message.append(status_text);
    Err(message)
}

/// The name of the directory that an update is put into.
pub open spec fn dir_name(process_id: u32) -> Seq<char> {
    "alas-launcher-update-"@ + text::decimal(process_id as nat)
}

/// Two launchers put updates into different directories.
pub proof fn each_launcher_has_a_directory_of_its_own(a: u32, b: u32)
    requires
        dir_name(a) == dir_name(b),
    ensures
        a == b,
{
    let k = "alas-launcher-update-"@.len() as int;
    assert(dir_name(a).skip(k) =~= text::decimal(a as nat));
    assert(dir_name(b).skip(k) =~= text::decimal(b as nat));
    text::lemma_decimal_differs(a as nat, b as nat);
}

/// The name of the directory that an update is put into.
pub fn update_dir_name(process_id: u32) -> (r: String)
    ensures
        r@ == dir_name(process_id),
{
    let mut name: String = "alas-launcher-update-".to_owned();
    name.append(strings::decimal_string(process_id as u64).as_str());
    name
}

/// The name of the file that an update is put into.
pub fn update_binary_filename(windows: bool) -> (r: &'static str)
    ensures
        r@ == if windows {
            "alas-launcher.next.exe"@
        } else {
            "alas-launcher.next"@
        },
{
    if windows {
        "alas-launcher.next.exe"
    } else {
        "alas-launcher.next"
    }
}

/// A text between single quotes, each single quote in it set between double quotes of its own.
pub open spec fn quoted(value: Seq<char>) -> Seq<char> {
    "'"@ + text::replace(value, "'"@, "'\"'\"'"@) + "'"@
}

/// A text as a word of a shell command.
pub fn sh_quote(value: &str) -> (r: String)
    ensures
        r@ == quoted(value@),
{
    proof {
        reveal_strlit("'");
    }
    let mut word: String = "'".to_owned();
    word.append(
        strings::string_of(
            &strings::replaced(&strings::chars_of(value), "'", "'\"'\"'"),
        ).as_str(),
    );
    word.append("'");
    word
}

/// What a shell reads a word as that is made of quoted parts, where `quote` is the mark that the
/// text is between at its start. Between single quotes every character stands for itself; between
/// double quotes every one does but the dollar sign, the backquote and the backslash.
pub open spec fn shell_reads(word: Seq<char>, quote: Option<char>) -> Option<Seq<char>>
    decreases word.len(),
{
    if word.len() == 0 {
        if quote is None {
            Some(Seq::empty())
        } else {
            None
        }
    } else {
        let c = word[0];
        match quote {
            None => if c == '\'' || c == '"' {
                shell_reads(word.skip(1), Some(c))
            } else {
                None
            },
            Some(mark) => if c == mark {
                shell_reads(word.skip(1), None)
            } else if mark == '"' && (c == '$' || c == '`' || c == '\\') {
                None
            } else {
                match shell_reads(word.skip(1), quote) {
                    Some(rest) => Some(seq![c] + rest),
                    None => None,
                }
            },
        }
    }
}

/// A shell reads a quoted text as that text, whatever it holds.
pub proof fn the_shell_reads_a_quoted_text_back(value: Seq<char>)
    ensures
        shell_reads(quoted(value), None) == Some(value),
{
    reveal_strlit("'");
    reveal_strlit("'\"'\"'");
    let mark = seq!['\''];
    assert("'"@ =~= mark);
    let by = "'\"'\"'"@;
    assert(by =~= seq!['\'', '"', '\'', '"', '\'']);
    text::lemma_replace_char(value, '\'', by);
    lemma_read_between_quotes(value);
    let inner = text::substitute(value, '\'', by) + mark;
    assert(quoted(value) =~= mark + inner);
    assert(quoted(value).skip(1) =~= inner);
}

proof fn lemma_read_between_quotes(value: Seq<char>)
    ensures
        shell_reads(
            text::substitute(value, '\'', seq!['\'', '"', '\'', '"', '\'']) + seq!['\''],
            Some('\''),
        ) == Some(value),
    decreases value.len(),
{
    let by = seq!['\'', '"', '\'', '"', '\''];
    let end = seq!['\''];
    if value.len() == 0 {
        let word = text::substitute(value, '\'', by) + end;
        assert(word =~= end);
        assert(word.skip(1) =~= Seq::empty());
        assert(value =~= Seq::empty());
        assert(shell_reads(word.skip(1), None) == Some(Seq::<char>::empty()));
    } else {
        let rest = text::substitute(value.skip(1), '\'', by) + end;
        lemma_read_between_quotes(value.skip(1));
        let word = text::substitute(value, '\'', by) + end;
        assert(seq![value[0]] + value.skip(1) =~= value);
        if value[0] == '\'' {
            assert(word =~= by + rest);
            let w1 = word.skip(1);
            let w2 = w1.skip(1);
            let w3 = w2.skip(1);
            let w4 = w3.skip(1);
            let w5 = w4.skip(1);
            assert(w1[0] == '"');
            assert(w2[0] == '\'');
            assert(w3[0] == '"');
            assert(w4[0] == '\'');
            assert(w5 =~= rest);
            assert(shell_reads(w4, None) == Some(value.skip(1)));
            assert(shell_reads(w3, Some('"')) == Some(value.skip(1)));
            assert(shell_reads(w2, Some('"')) == Some(seq!['\''] + value.skip(1)));
            assert(shell_reads(w1, None) == shell_reads(w2, Some('"')));
            assert(shell_reads(word, Some('\'')) == shell_reads(w1, None));
        } else {
            assert(word =~= seq![value[0]] + rest);
            assert(word.skip(1) =~= rest);
        }
    }
}

/// The part of the script behind the paths, up to the identifier of the old launcher.
pub const UNIX_SCRIPT_MIDDLE: &'static str = "
i=0
while [ \"$i\" -lt 240 ]; do
  if ! kill -0 \"$PARENT_PID\" 2>/dev/null; then
    break
  fi
  i=$((i + 1))
  sleep 0.25
done
cp \"$SOURCE\" \"$TARGET\"
chmod +x \"$TARGET\"
ALAS_LAUNCHER_REATTACH=1 ALAS_LAUNCHER_REATTACH_OWNER_PID=";

/// The end of the script.
pub const UNIX_SCRIPT_END: &'static str = " \"$TARGET\" >/dev/null 2>&1 &
rm -f \"$SOURCE\" \"$0\"
";

/// The script that puts an update in place.
pub open spec fn script_text(parent_pid: u32, source: Seq<char>, target: Seq<char>) -> Seq<char> {
    "#!/bin/sh\nset -eu\nPARENT_PID="@ + text::decimal(parent_pid as nat) + "\nSOURCE="@ + quoted(
        source,
    ) + "\nTARGET="@ + quoted(target) + UNIX_SCRIPT_MIDDLE@ + text::decimal(parent_pid as nat)
        + UNIX_SCRIPT_END@
}

/// The script starts by setting its three variables: `PARENT_PID` to the identifier of the old
/// launcher, `SOURCE` to a word that the shell reads as the path of the update, and `TARGET` to one
/// that it reads as the path of the launcher.
pub proof fn the_script_knows_its_paths(parent_pid: u32, source: Seq<char>, target: Seq<char>)
    ensures
        ({
            let pid = "PARENT_PID="@ + text::decimal(parent_pid as nat);
            let from = "SOURCE="@ + quoted(source);
            let to = "TARGET="@ + quoted(target);
            text::starts_with(
                script_text(parent_pid, source, target),
                "#!/bin/sh\nset -eu\n"@ + pid + seq!['\n'] + from + seq!['\n'] + to + seq!['\n'],
            )
        }),
        shell_reads(quoted(source), None) == Some(source),
        shell_reads(quoted(target), None) == Some(target),
        text::contains(
            script_text(parent_pid, source, target),
            "\ncp \"$SOURCE\" \"$TARGET\"\n"@,
        ),
        text::contains(
            script_text(parent_pid, source, target),
            " ALAS_LAUNCHER_REATTACH_OWNER_PID="@ + text::decimal(parent_pid as nat),
        ),
{
    the_shell_reads_a_quoted_text_back(source);
    the_shell_reads_a_quoted_text_back(target);
    reveal_strlit("#!/bin/sh\nset -eu\nPARENT_PID=");
    reveal_strlit("#!/bin/sh\nset -eu\n");
    reveal_strlit("PARENT_PID=");
    reveal_strlit("\nSOURCE=");
    reveal_strlit("SOURCE=");
    reveal_strlit("\nTARGET=");
    reveal_strlit("TARGET=");
    lemma_script_middle();
    let pid = text::decimal(parent_pid as nat);
    let start = "#!/bin/sh\nset -eu\n"@ + ("PARENT_PID="@ + pid) + seq!['\n'] + ("SOURCE="@
        + quoted(source)) + seq!['\n'] + ("TARGET="@ + quoted(target)) + seq!['\n'];
    let head = "#!/bin/sh\nset -eu\nPARENT_PID="@ + pid + "\nSOURCE="@ + quoted(source)
        + "\nTARGET="@ + quoted(target);
    assert("#!/bin/sh\nset -eu\nPARENT_PID="@ =~= "#!/bin/sh\nset -eu\n"@ + "PARENT_PID="@);
    assert("\nSOURCE="@ =~= seq!['\n'] + "SOURCE="@);
    assert("\nTARGET="@ =~= seq!['\n'] + "TARGET="@);
    assert(start =~= head + seq!['\n']);
    let tail = UNIX_SCRIPT_MIDDLE@ + pid + UNIX_SCRIPT_END@;
    let script = script_text(parent_pid, source, target);
    assert(script =~= head + tail);
    assert(tail[0] == '\n');
    assert(script.take(start.len() as int) =~= start);
    let middle = UNIX_SCRIPT_MIDDLE@;
    let rest = pid + UNIX_SCRIPT_END@;
    text::lemma_contains_within(head, middle, rest, "\ncp \"$SOURCE\" \"$TARGET\"\n"@);
    assert(head + middle + rest =~= script);
    let owner = " ALAS_LAUNCHER_REATTACH_OWNER_PID="@;
    let n = head.len() + middle.len() - owner.len();
    assert(script.subrange(n, n + owner.len() + pid.len()) =~= owner + pid) by {
        assert(middle.skip(middle.len() - owner.len()) =~= owner);
        assert forall|i: int| 0 <= i < owner.len() implies script[n + i] == owner[i] by {
            assert(script[n + i] == middle[middle.len() - owner.len() + i]);
            assert(middle.skip(middle.len() - owner.len())[i] == owner[i]);
        }
    }
    assert(text::occurs_at(script, owner + pid, n));
}

/// The script copies the update onto the launcher, and starts it with the identifier of the old one
/// in its environment.
proof fn lemma_script_middle()
    ensures
        UNIX_SCRIPT_MIDDLE@.len() > 0,
        UNIX_SCRIPT_MIDDLE@[0] == '\n',
        text::contains(UNIX_SCRIPT_MIDDLE@, "\ncp \"$SOURCE\" \"$TARGET\"\n"@),
        " ALAS_LAUNCHER_REATTACH_OWNER_PID="@.is_suffix_of(UNIX_SCRIPT_MIDDLE@),
{
    reveal_strlit("\ncp \"$SOURCE\" \"$TARGET\"\n");
    reveal_strlit(" ALAS_LAUNCHER_REATTACH_OWNER_PID=");
    reveal_strlit(
        "
i=0
while [ \"$i\" -lt 240 ]; do
  if ! kill -0 \"$PARENT_PID\" 2>/dev/null; then
    break
  fi
  i=$((i + 1))
  sleep 0.25
done
cp \"$SOURCE\" \"$TARGET\"
chmod +x \"$TARGET\"
ALAS_LAUNCHER_REATTACH=1 ALAS_LAUNCHER_REATTACH_OWNER_PID=",
    );
    let middle = UNIX_SCRIPT_MIDDLE@;
    assert(middle.subrange(126, 150) =~= "\ncp \"$SOURCE\" \"$TARGET\"\n"@);
    assert(text::occurs_at(middle, "\ncp \"$SOURCE\" \"$TARGET\"\n"@, 126));
    assert(middle.subrange(193, 227) =~= " ALAS_LAUNCHER_REATTACH_OWNER_PID="@);
}

/// The script that puts an update in place: it waits for the old launcher to end, copies the file
/// at `source` to `target` and starts it.
pub fn unix_update_script(parent_pid: u32, source: &str, target: &str) -> (r: String)
    ensures
        r@ == script_text(parent_pid, source@, target@),
{
    let mut script: String = "#!/bin/sh\nset -eu\nPARENT_PID=".to_owned();
    script.append(strings::decimal_string(parent_pid as u64).as_str());
    script.append("\nSOURCE=");
    script.append(sh_quote(source).as_str());
    script.append("\nTARGET=");
    script.append(sh_quote(target).as_str());
    script.append(UNIX_SCRIPT_MIDDLE);
    script.append(strings::decimal_string(parent_pid as u64).as_str());
    script.append(UNIX_SCRIPT_END);
    script
}

/// Where nothing is configured, or nothing but blanks and semicolons, the default endpoint alone is
/// asked.
pub proof fn the_default_endpoint_is_asked(raw: Seq<char>)
    ensures
        endpoints(None) == seq![DEFAULT_UPDATE_ENDPOINT@],
        (forall|i: int|
            0 <= i < text::split(raw, ';').len() ==> text::is_blank(
                #[trigger] text::split(raw, ';')[i],
            )) ==> endpoints(Some(raw)) == seq![DEFAULT_UPDATE_ENDPOINT@],
{
    let pieces = text::split(raw, ';');
    if forall|i: int| 0 <= i < pieces.len() ==> text::is_blank(#[trigger] pieces[i]) {
        lemma_all_blank(pieces, pieces.len() as int);
    }
}

proof fn lemma_all_blank(pieces: Seq<Seq<char>>, n: int)
    requires
        n <= pieces.len(),
        forall|i: int| 0 <= i < pieces.len() ==> text::is_blank(#[trigger] pieces[i]),
    ensures
        entries(pieces, n).len() == 0,
    decreases n,
{
    if n > 0 {
        assert(text::is_blank(pieces[n - 1]));
        lemma_all_blank(pieces, n - 1);
    }
}

} // verus!
