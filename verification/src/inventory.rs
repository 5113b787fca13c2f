//! Per-host inventory resolution: the diagnostic command battery and the
//! parsers that fold raw command output into one structured record.
//!
//! Parsing is line-oriented with a case-sensitive match on a fixed label
//! set; a missing label leaves its field empty, which is a soft miss and
//! never an error.  Only the connectivity gate and a failed battery
//! command fail a resolution.

use vstd::prelude::*;
use vstd::string::StringExecFns;
use crate::error::{spec_error_message, SSHError};
use crate::text::{
    after_colon, chars_string, eq_vec, contains_seq, fields_of, find_sub, lines_of, lower_vec,
    spec_after_colon, spec_contains, spec_fields, spec_find_sub, spec_lines, spec_lower,
    spec_starts_with, spec_trim, starts_with, str_chars, subvec, trim_vec,
};

verus! {

/// The structured inventory record of one host.
#[derive(Debug, Clone)]
pub struct ComputerInfo {
    pub title: String,
    pub product_name: String,
    pub serial: String,
    pub version: String,
    pub user: String,
    pub network_name: String,
    pub processor: String,
    pub architecture: String,
    pub memory: String,
    pub graphics: String,
    pub storage: String,
    pub lan_ip: String,
    pub wifi_ip: String,
    pub wifi_name: String,
    pub home_users: Vec<String>,
}

/// The mathematical shadow of a record: every field as a sequence.
#[verifier::ext_equal]
pub ghost struct ComputerInfoV {
    pub title: Seq<char>,
    pub product_name: Seq<char>,
    pub serial: Seq<char>,
    pub version: Seq<char>,
    pub user: Seq<char>,
    pub network_name: Seq<char>,
    pub processor: Seq<char>,
    pub architecture: Seq<char>,
    pub memory: Seq<char>,
    pub graphics: Seq<char>,
    pub storage: Seq<char>,
    pub lan_ip: Seq<char>,
    pub wifi_ip: Seq<char>,
    pub wifi_name: Seq<char>,
    pub home_users: Seq<Seq<char>>,
}

impl View for ComputerInfo {
    type V = ComputerInfoV;

    open spec fn view(&self) -> ComputerInfoV {
        ComputerInfoV {
            title: self.title@,
            product_name: self.product_name@,
            serial: self.serial@,
            version: self.version@,
            user: self.user@,
            network_name: self.network_name@,
            processor: self.processor@,
            architecture: self.architecture@,
            memory: self.memory@,
            graphics: self.graphics@,
            storage: self.storage@,
            lan_ip: self.lan_ip@,
            wifi_ip: self.wifi_ip@,
            wifi_name: self.wifi_name@,
            home_users: self.home_users.deep_view(),
        }
    }
}

/// The record every resolution starts from: all fields empty.
pub open spec fn spec_empty_info() -> ComputerInfoV {
    ComputerInfoV {
        title: Seq::empty(),
        product_name: Seq::empty(),
        serial: Seq::empty(),
        version: Seq::empty(),
        user: Seq::empty(),
        network_name: Seq::empty(),
        processor: Seq::empty(),
        architecture: Seq::empty(),
        memory: Seq::empty(),
        graphics: Seq::empty(),
        storage: Seq::empty(),
        lan_ip: Seq::empty(),
        wifi_ip: Seq::empty(),
        wifi_name: Seq::empty(),
        home_users: Seq::empty(),
    }
}

impl Default for ComputerInfo {
    /// Absence is never an error: the starting record is all empty.
    fn default() -> (r: Self)
        ensures
            r@ == spec_empty_info(),
    {
        let r = ComputerInfo {
            title: String::new(),
            product_name: String::new(),
            serial: String::new(),
            version: String::new(),
            user: String::new(),
            network_name: String::new(),
            processor: String::new(),
            architecture: String::new(),
            memory: String::new(),
            graphics: String::new(),
            storage: String::new(),
            lan_ip: String::new(),
            wifi_ip: String::new(),
            wifi_name: String::new(),
            home_users: Vec::new(),
        };
        proof {
            assert(r@ =~~= spec_empty_info());
        }
        r
    }
}

/// The canonical token for a chip description: an `arm` chip — Apple's
/// M-series included — maps to the ARM token, an `intel` chip to the x86
/// token, anything else passes through unchanged.  The match is
/// case-insensitive.
pub open spec fn spec_normalize_arch(v: Seq<char>) -> Seq<char> {
    let low = spec_lower(v);
    if spec_contains(low, "arm"@) || spec_contains(low, "apple m"@) {
        "aarch64"@
    } else if spec_contains(low, "intel"@) {
        "x86_64"@
    } else {
        v
    }
}

/// Normalizes a chip description to its canonical architecture token.
pub fn normalize_architecture(chip: &str) -> (r: String)
    ensures
        r@ == spec_normalize_arch(chip@),
{
    let chars = str_chars(chip);
    let v = normalize_arch(&chars);
    chars_string(&v)
}

fn normalize_arch(v: &Vec<char>) -> (r: Vec<char>)
    ensures
        r@ == spec_normalize_arch(v@),
{
    let low = lower_vec(v);
    if contains_seq(&low, &str_chars("arm")) || contains_seq(&low, &str_chars("apple m")) {
        str_chars("aarch64")
    } else if contains_seq(&low, &str_chars("intel")) {
        str_chars("x86_64")
    } else {
        v.clone()
    }
}

/// What one hardware-summary line does to the record: the labels
/// `Model Name:`, `Serial Number`, `Processor `, `Memory:` and `Chip:` set
/// their fields from the text after the first colon; `Chip:` values are
/// normalized to an architecture token; anything else changes nothing.
pub open spec fn hw_step(rec: ComputerInfoV, line: Seq<char>) -> ComputerInfoV {
    let t = spec_trim(line);
    if spec_starts_with(t, "Model Name:"@) {
        match spec_after_colon(t) {
            Some(v) => ComputerInfoV { product_name: v, ..rec },
            None => rec,
        }
    } else if spec_starts_with(t, "Serial Number"@) {
        match spec_after_colon(t) {
            Some(v) => ComputerInfoV { serial: v, ..rec },
            None => rec,
        }
    } else if spec_starts_with(t, "Processor "@) {
        match spec_after_colon(t) {
            Some(v) => ComputerInfoV { processor: v, ..rec },
            None => rec,
        }
    } else if spec_starts_with(t, "Memory:"@) {
        match spec_after_colon(t) {
            Some(v) => ComputerInfoV { memory: v, ..rec },
            None => rec,
        }
    } else if spec_starts_with(t, "Chip:"@) {
        match spec_after_colon(t) {
            Some(v) => ComputerInfoV { architecture: spec_normalize_arch(v), ..rec },
            None => rec,
        }
    } else {
        rec
    }
}

/// `hw_step` folded over the lines from position `i` on.
pub open spec fn hw_fold(rec: ComputerInfoV, ls: Seq<Seq<char>>, i: int) -> ComputerInfoV
    decreases ls.len() - i,
{
    if i < 0 || i >= ls.len() {
        rec
    } else {
        hw_fold(hw_step(rec, ls[i]), ls, i + 1)
    }
}

/// What one software-summary line does to the record: `System Version:`,
/// `Computer Name:` and `User Name:` set their fields from the text after
/// the first colon.
pub open spec fn sys_step(rec: ComputerInfoV, line: Seq<char>) -> ComputerInfoV {
    let t = spec_trim(line);
    if spec_starts_with(t, "System Version:"@) {
        match spec_after_colon(t) {
            Some(v) => ComputerInfoV { version: v, ..rec },
            None => rec,
        }
    } else if spec_starts_with(t, "Computer Name:"@) {
        match spec_after_colon(t) {
            Some(v) => ComputerInfoV { title: v, ..rec },
            None => rec,
        }
    } else if spec_starts_with(t, "User Name:"@) {
        match spec_after_colon(t) {
            Some(v) => ComputerInfoV { user: v, ..rec },
            None => rec,
        }
    } else {
        rec
    }
}

/// `sys_step` folded over the lines from position `i` on.
pub open spec fn sys_fold(rec: ComputerInfoV, ls: Seq<Seq<char>>, i: int) -> ComputerInfoV
    decreases ls.len() - i,
{
    if i < 0 || i >= ls.len() {
        rec
    } else {
        sys_fold(sys_step(rec, ls[i]), ls, i + 1)
    }
}

impl ComputerInfo {
    /// The command that yields the hardware summary.
    pub fn get_hardware_command() -> (r: &'static str)
        ensures
            r@ == "system_profiler SPHardwareDataType"@,
    {
        "system_profiler SPHardwareDataType"
    }

    /// The command that yields the operating-system summary.
    pub fn get_system_command() -> (r: &'static str)
        ensures
            r@ == "system_profiler SPSoftwareDataType"@,
    {
        "system_profiler SPSoftwareDataType"
    }

    /// The command that yields the interface list and the wireless status,
    /// separated by a literal section marker.
    pub fn get_network_command() -> (r: &'static str)
        ensures
            r@ == "echo '=== Network Interfaces ===' &&\n           ifconfig | grep 'inet ' &&\n           echo '=== Wifi Status ===' &&\n           /System/Library/PrivateFrameworks/Apple80211.framework/Versions/Current/Resources/airport -I"@,
    {
        r#"echo '=== Network Interfaces ===' &&
           ifconfig | grep 'inet ' &&
           echo '=== Wifi Status ===' &&
           /System/Library/PrivateFrameworks/Apple80211.framework/Versions/Current/Resources/airport -I"#
    }

    /// The command that yields the root-filesystem usage table.
    pub fn get_storage_command() -> (r: &'static str)
        ensures
            r@ == "df -h /"@,
    {
        "df -h /"
    }

    /// The command that lists user accounts, system accounts filtered out.
    pub fn get_users_command() -> (r: &'static str)
        ensures
            r@ == "dscl . list /Users | grep -v '^_' | grep -v 'daemon' | grep -v 'nobody'"@,
    {
        "dscl . list /Users | grep -v '^_' | grep -v 'daemon' | grep -v 'nobody'"
    }

    /// The command that yields the display and GPU summary.
    pub fn get_graphics_command() -> (r: &'static str)
        ensures
            r@ == "system_profiler SPDisplaysDataType"@,
    {
        "system_profiler SPDisplaysDataType"
    }

    /// The text after the first colon of a line, trimmed; nothing when the
    /// line has no colon or nothing but whitespace after it.
    pub fn get_value_after_first_colon(line: &str) -> (r: Option<String>)
        ensures
            match r {
                Some(v) => spec_after_colon(line@) == Some(v@),
                None => spec_after_colon(line@) is None,
            },
    {
        let chars = str_chars(line);
        match after_colon(&chars) {
            Some(v) => Some(chars_string(&v)),
            None => None,
        }
    }

    /// Folds a hardware summary into the record.
    pub fn parse_hardware_info(&mut self, output: &str)
        ensures
            final(self)@ == hw_fold(old(self)@, spec_lines(output@), 0),
    {
        let chars = str_chars(output);
        let ls = lines_of(&chars);
        let ghost d = ls.deep_view();
        let mut i: usize = 0;
        while i < ls.len()
            invariant
                i <= ls@.len(),
                d == ls.deep_view(),
                d.len() == ls@.len(),
                hw_fold(old(self)@, d, 0) == hw_fold(self@, d, i as int),
            decreases ls.len() - i,
        {
            let ghost pre = self@;
            proof {
                assert(d[i as int] == ls@[i as int]@);
            }
            let t = trim_vec(&ls[i]);
            if starts_with(&t, &str_chars("Model Name:")) {
                if let Some(v) = after_colon(&t) {
                    self.product_name = chars_string(&v);
                }
            } else if starts_with(&t, &str_chars("Serial Number")) {
                if let Some(v) = after_colon(&t) {
                    self.serial = chars_string(&v);
                }
            } else if starts_with(&t, &str_chars("Processor ")) {
                if let Some(v) = after_colon(&t) {
                    self.processor = chars_string(&v);
                }
            } else if starts_with(&t, &str_chars("Memory:")) {
                if let Some(v) = after_colon(&t) {
                    self.memory = chars_string(&v);
                }
            } else if starts_with(&t, &str_chars("Chip:")) {
                if let Some(v) = after_colon(&t) {
                    let a = normalize_arch(&v);
                    self.architecture = chars_string(&a);
                }
            }
            proof {
                assert(self@ =~~= hw_step(pre, d[i as int]));
            }
            i = i + 1;
        }
    }

    /// Folds an operating-system summary into the record.
    pub fn parse_system_info(&mut self, output: &str)
        ensures
            final(self)@ == sys_fold(old(self)@, spec_lines(output@), 0),
    {
        let chars = str_chars(output);
        let ls = lines_of(&chars);
        let ghost d = ls.deep_view();
        let mut i: usize = 0;
        while i < ls.len()
            invariant
                i <= ls@.len(),
                d == ls.deep_view(),
                d.len() == ls@.len(),
                sys_fold(old(self)@, d, 0) == sys_fold(self@, d, i as int),
            decreases ls.len() - i,
        {
            let ghost pre = self@;
            proof {
                assert(d[i as int] == ls@[i as int]@);
            }
            let t = trim_vec(&ls[i]);
            if starts_with(&t, &str_chars("System Version:")) {
                if let Some(v) = after_colon(&t) {
                    self.version = chars_string(&v);
                }
            } else if starts_with(&t, &str_chars("Computer Name:")) {
                if let Some(v) = after_colon(&t) {
                    self.title = chars_string(&v);
                }
            } else if starts_with(&t, &str_chars("User Name:")) {
                if let Some(v) = after_colon(&t) {
                    self.user = chars_string(&v);
                }
            }
            proof {
                assert(self@ =~~= sys_step(pre, d[i as int]));
            }
            i = i + 1;
        }
    }
}

/// What one interface line does to the record: a trimmed `inet ` line with
/// a second field other than the loopback address fills the LAN address
/// first and a distinct secondary address second.
pub open spec fn inet_step(rec: ComputerInfoV, line: Seq<char>) -> ComputerInfoV {
    let t = spec_trim(line);
    if spec_starts_with(t, "inet "@) {
        let fs = spec_fields(t);
        if fs.len() >= 2 && fs[1] != "127.0.0.1"@ {
            if rec.lan_ip.len() == 0 {
                ComputerInfoV { lan_ip: fs[1], ..rec }
            } else if rec.wifi_ip.len() == 0 {
                ComputerInfoV { wifi_ip: fs[1], ..rec }
            } else {
                rec
            }
        } else {
            rec
        }
    } else {
        rec
    }
}

/// `inet_step` folded over the lines from position `i` on.
pub open spec fn inet_fold(rec: ComputerInfoV, ls: Seq<Seq<char>>, i: int) -> ComputerInfoV
    decreases ls.len() - i,
{
    if i < 0 || i >= ls.len() {
        rec
    } else {
        inet_fold(inet_step(rec, ls[i]), ls, i + 1)
    }
}

/// What one wireless-status line does to the record: a trimmed `SSID: `
/// line names the network after its first `: ` separator, if non-empty.
pub open spec fn ssid_step(rec: ComputerInfoV, line: Seq<char>) -> ComputerInfoV {
    let t = spec_trim(line);
    if spec_starts_with(t, "SSID: "@) {
        match spec_find_sub(t, ": "@) {
            Some(k) => {
                let v = spec_trim(t.skip(k + ": "@.len()));
                if v.len() > 0 {
                    ComputerInfoV { wifi_name: v, ..rec }
                } else {
                    rec
                }
            },
            None => rec,
        }
    } else {
        rec
    }
}

/// `ssid_step` folded over the lines from position `i` on.
pub open spec fn ssid_fold(rec: ComputerInfoV, ls: Seq<Seq<char>>, i: int) -> ComputerInfoV
    decreases ls.len() - i,
{
    if i < 0 || i >= ls.len() {
        rec
    } else {
        ssid_fold(ssid_step(rec, ls[i]), ls, i + 1)
    }
}

/// The two halves of the network command's output: what stands before the
/// wireless section marker, and what follows it.
pub open spec fn spec_network_halves(out: Seq<char>) -> (Seq<char>, Seq<char>) {
    match spec_find_sub(out, "=== Wifi Status ==="@) {
        Some(k) => (out.take(k), out.skip(k + "=== Wifi Status ==="@.len())),
        None => (out, Seq::empty()),
    }
}

/// Users are every non-empty trimmed line, verbatim, in order.
pub open spec fn users_from(ls: Seq<Seq<char>>, i: int) -> Seq<Seq<char>>
    decreases ls.len() - i,
{
    if i < 0 || i >= ls.len() {
        Seq::empty()
    } else {
        (if spec_trim(ls[i]).len() > 0 {
            seq![spec_trim(ls[i])]
        } else {
            Seq::empty()
        }) + users_from(ls, i + 1)
    }
}

/// The first chipset label with a value, if any.
pub open spec fn gfx_first(ls: Seq<Seq<char>>, i: int) -> Option<Seq<char>>
    decreases ls.len() - i,
{
    if i < 0 || i >= ls.len() {
        None
    } else {
        let t = spec_trim(ls[i]);
        if spec_starts_with(t, "Chipset Model:"@) && spec_after_colon(t) is Some {
            spec_after_colon(t)
        } else {
            gfx_first(ls, i + 1)
        }
    }
}

impl ComputerInfo {
    /// Folds the network command's output into the record: addresses from
    /// the interface half, the network name from the wireless half.
    pub fn parse_network_info(&mut self, output: &str)
        ensures
            final(self)@ == ssid_fold(
                inet_fold(old(self)@, spec_lines(spec_network_halves(output@).0), 0),
                spec_lines(spec_network_halves(output@).1),
                0,
            ),
    {
        let chars = str_chars(output);
        let marker = str_chars("=== Wifi Status ===");
        let n = chars.len();
        let (pre, post) = match find_sub(&chars, &marker) {
            Some(k) => (subvec(&chars, 0, k), subvec(&chars, k + marker.len(), n)),
            None => (chars, Vec::new()),
        };
        proof {
            assert(pre@ =~= spec_network_halves(output@).0);
            assert(post@ =~= spec_network_halves(output@).1);
        }
        let pre_lines = lines_of(&pre);
        let ghost d = pre_lines.deep_view();
        let mut i: usize = 0;
        while i < pre_lines.len()
            invariant
                i <= pre_lines@.len(),
                d == pre_lines.deep_view(),
                d.len() == pre_lines@.len(),
                inet_fold(old(self)@, d, 0) == inet_fold(self@, d, i as int),
            decreases pre_lines.len() - i,
        {
            let ghost prev = self@;
            proof {
                assert(d[i as int] == pre_lines@[i as int]@);
            }
            let t = trim_vec(&pre_lines[i]);
            if starts_with(&t, &str_chars("inet ")) {
                let fs = fields_of(&t);
                proof {
                    if fs@.len() >= 2 {
                        assert(fs.deep_view()[1] == fs@[1]@);
                    }
                }
                if fs.len() >= 2 && !eq_vec(&fs[1], &str_chars("127.0.0.1")) {
                    if self.lan_ip.as_str().is_empty() {
                        self.lan_ip = chars_string(&fs[1]);
                    } else if self.wifi_ip.as_str().is_empty() {
                        self.wifi_ip = chars_string(&fs[1]);
                    }
                }
            }
            proof {
                assert(self@ =~~= inet_step(prev, d[i as int]));
            }
            i = i + 1;
        }
        let post_lines = lines_of(&post);
        let ghost e = post_lines.deep_view();
        let ghost mid = self@;
        let sep = str_chars(": ");
        let mut j: usize = 0;
        while j < post_lines.len()
            invariant
                j <= post_lines@.len(),
                e == post_lines.deep_view(),
                e.len() == post_lines@.len(),
                sep@ == ": "@,
                ssid_fold(mid, e, 0) == ssid_fold(self@, e, j as int),
            decreases post_lines.len() - j,
        {
            let ghost prev = self@;
            proof {
                assert(e[j as int] == post_lines@[j as int]@);
            }
            let t = trim_vec(&post_lines[j]);
            if starts_with(&t, &str_chars("SSID: ")) {
                if let Some(k) = find_sub(&t, &sep) {
                    let m = t.len();
                    let rest = subvec(&t, k + sep.len(), m);
                    proof {
                        assert(rest@ =~= t@.skip(k + ": "@.len()));
                    }
                    let v = trim_vec(&rest);
                    if v.len() > 0 {
                        self.wifi_name = chars_string(&v);
                    }
                }
            }
            proof {
                assert(self@ =~~= ssid_step(prev, e[j as int]));
            }
            j = j + 1;
        }
    }

    /// Takes the usage figure from the storage table: the second field of
    /// the second line, header line first, or nothing on a shorter table.
    pub fn parse_storage_info(&mut self, output: &str)
        ensures
            final(self)@ == (if spec_lines(output@).len() >= 2 && spec_fields(
                spec_lines(output@)[1],
            ).len() >= 2 {
                ComputerInfoV { storage: spec_fields(spec_lines(output@)[1])[1], ..old(self)@ }
            } else {
                old(self)@
            }),
    {
        let chars = str_chars(output);
        let ls = lines_of(&chars);
        if ls.len() >= 2 {
            proof {
                assert(ls.deep_view()[1] == ls@[1]@);
            }
            let fs = fields_of(&ls[1]);
            if fs.len() >= 2 {
                proof {
                    assert(fs.deep_view()[1] == fs@[1]@);
                }
                self.storage = chars_string(&fs[1]);
            }
        }
        proof {
            if spec_lines(output@).len() >= 2 && spec_fields(spec_lines(output@)[1]).len() >= 2 {
                assert(self@ =~~= ComputerInfoV {
                    storage: spec_fields(spec_lines(output@)[1])[1],
                    ..old(self)@
                });
            } else {
                assert(self@ =~~= old(self)@);
            }
        }
    }

    /// Collects the user listing: every non-empty trimmed line, verbatim.
    pub fn parse_users_info(&mut self, output: &str)
        ensures
            final(self)@ == (ComputerInfoV {
                home_users: users_from(spec_lines(output@), 0),
                ..old(self)@
            }),
    {
        let chars = str_chars(output);
        let ls = lines_of(&chars);
        let ghost d = ls.deep_view();
        let mut users: Vec<String> = Vec::new();
        proof {
            assert(users.deep_view() =~~= Seq::<Seq<char>>::empty());
            assert(Seq::<Seq<char>>::empty() + users_from(d, 0) =~= users_from(d, 0));
        }
        let mut i: usize = 0;
        while i < ls.len()
            invariant
                i <= ls@.len(),
                d == ls.deep_view(),
                d.len() == ls@.len(),
                users_from(d, 0) == users.deep_view() + users_from(d, i as int),
            decreases ls.len() - i,
        {
            proof {
                assert(d[i as int] == ls@[i as int]@);
            }
            let t = trim_vec(&ls[i]);
            if t.len() > 0 {
                let ghost prev = users.deep_view();
                users.push(chars_string(&t));
                proof {
                    assert(users.deep_view() =~~= prev.push(spec_trim(d[i as int])));
                }
            }
            proof {
                assert(users_from(d, 0) =~= users.deep_view() + users_from(d, i + 1 as int));
            }
            i = i + 1;
        }
        self.home_users = users;
        proof {
            assert(users_from(d, ls@.len() as int) =~= Seq::<Seq<char>>::empty());
            assert(self@.home_users =~~= users_from(d, 0));
            assert(self@ =~~= (ComputerInfoV {
                home_users: users_from(spec_lines(output@), 0),
                ..old(self)@
            }));
        }
    }

    /// Takes the first chipset label of the display summary; a missing
    /// label leaves the field as it was, a soft miss.
    pub fn parse_graphics_info(&mut self, output: &str)
        ensures
            final(self)@ == (match gfx_first(spec_lines(output@), 0) {
                Some(v) => ComputerInfoV { graphics: v, ..old(self)@ },
                None => old(self)@,
            }),
    {
        let chars = str_chars(output);
        let ls = lines_of(&chars);
        let ghost d = ls.deep_view();
        let mut i: usize = 0;
        while i < ls.len()
            invariant
                i <= ls@.len(),
                d == ls.deep_view(),
                d == spec_lines(output@),
                d.len() == ls@.len(),
                self == old(self),
                gfx_first(d, 0) == gfx_first(d, i as int),
            decreases ls.len() - i,
        {
            proof {
                assert(d[i as int] == ls@[i as int]@);
            }
            let t = trim_vec(&ls[i]);
            if starts_with(&t, &str_chars("Chipset Model:")) {
                if let Some(v) = after_colon(&t) {
                    proof {
                        assert(gfx_first(d, i as int) == Some(v@));
                        assert(gfx_first(d, 0) == Some(v@));
                    }
                    self.graphics = chars_string(&v);
                    proof {
                        assert(self@ =~~= (ComputerInfoV {
                            graphics: v@,
                            ..old(self)@
                        }));
                    }
                    return ;
                }
            }
            i = i + 1;
        }
        proof {
            assert(self@ =~~= old(self)@);
        }
    }
}

/// Whether the connectivity probe's outcome admits the diagnostic battery:
/// only a successful probe whose output carries the probe marker does.
pub open spec fn spec_battery_allowed(probe: Result<String, SSHError>) -> bool {
    probe matches Ok(out) && spec_contains(out@, "CONN_TEST_OK"@)
}

/// Screens the probe outcome before the battery runs: a failed or
/// unrecognised probe aborts the whole resolution with its message.
pub fn probe_gate(probe: &Result<String, SSHError>) -> (r: Result<(), String>)
    ensures
        r is Ok <==> spec_battery_allowed(*probe),
        match *probe {
            Ok(out) => !spec_contains(out@, "CONN_TEST_OK"@) ==> (r matches Err(m) && m@
                == "SSH test returned unexpected response"@),
            Err(e) => r matches Err(m) && m@ == "SSH connection failed: "@ + spec_error_message(e),
        },
{
    match probe {
        Ok(out) => {
            let chars = str_chars(out.as_str());
            if contains_seq(&chars, &str_chars("CONN_TEST_OK")) {
                Ok(())
            } else {
                Err(String::from_str("SSH test returned unexpected response"))
            }
        },
        Err(e) => {
            let msg = e.message();
            let mut m: Vec<char> = str_chars("SSH connection failed: ");
            crate::text::push_all(&mut m, &str_chars(msg.as_str()));
            Err(chars_string(&m))
        },
    }
}

/// A host whose connectivity probe failed never reaches the diagnostic
/// battery: no probe outcome other than a success carrying the probe
/// marker admits it.
pub proof fn lemma_failed_probe_blocks_battery(probe: Result<String, SSHError>)
    requires
        probe is Err,
    ensures
        !spec_battery_allowed(probe),
{
}

/// The index of the first failed battery command, if any.
pub open spec fn first_error_from(outs: Seq<Result<String, SSHError>>, i: int) -> Option<int>
    decreases outs.len() - i,
{
    if i < 0 || i >= outs.len() {
        None
    } else if outs[i] is Err {
        Some(i)
    } else {
        first_error_from(outs, i + 1)
    }
}

/// The output texts of battery results, failed ones as empty.
pub open spec fn ok_views(outs: Seq<Result<String, SSHError>>) -> Seq<Seq<char>> {
    outs.map_values(
        |o: Result<String, SSHError>|
            match o {
                Ok(s) => s@,
                Err(_) => Seq::<char>::empty(),
            },
    )
}

/// The record that a fully successful battery yields: each parser folded
/// over its command's output, in battery order, starting from the empty
/// record, with the host written as the network name last.  The parsers
/// touch disjoint fields, so any completion order yields this record.
pub open spec fn spec_resolved(host: Seq<char>, outs: Seq<Seq<char>>) -> ComputerInfoV {
    let r1 = hw_fold(spec_empty_info(), spec_lines(outs[0]), 0);
    let r2 = sys_fold(r1, spec_lines(outs[1]), 0);
    let halves = spec_network_halves(outs[2]);
    let r3 = ssid_fold(inet_fold(r2, spec_lines(halves.0), 0), spec_lines(halves.1), 0);
    let r4 = if spec_lines(outs[3]).len() >= 2 && spec_fields(spec_lines(outs[3])[1]).len() >= 2 {
        ComputerInfoV { storage: spec_fields(spec_lines(outs[3])[1])[1], ..r3 }
    } else {
        r3
    };
    let r5 = ComputerInfoV { home_users: users_from(spec_lines(outs[4]), 0), ..r4 };
    let r6 = match gfx_first(spec_lines(outs[5]), 0) {
        Some(v) => ComputerInfoV { graphics: v, ..r5 },
        None => r5,
    };
    ComputerInfoV { network_name: host, ..r6 }
}

/// Folds the six battery outputs, in battery order, into one record.  Any
/// failed command fails the whole resolution with that command's error —
/// the record is never returned partially filled on a hard failure.
pub fn resolve_from_outputs(host: &str, outputs: &Vec<Result<String, SSHError>>) -> (r: Result<
    ComputerInfo,
    String,
>)
    requires
        outputs@.len() == 6,
    ensures
        match first_error_from(outputs@, 0) {
            Some(k) => r matches Err(m) && (outputs@[k] matches Err(e) && m@ == spec_error_message(
                e,
            )),
            None => r matches Ok(info) && info@ == spec_resolved(host@, ok_views(outputs@)),
        },
{
    let mut k: usize = 0;
    while k < 6
        invariant
            k <= 6,
            outputs@.len() == 6,
            first_error_from(outputs@, 0) == first_error_from(outputs@, k as int),
            forall|j: int| 0 <= j < k ==> outputs@[j] is Ok,
        decreases 6 - k,
    {
        if let Err(e) = &outputs[k] {
            return Err(e.message());
        }
        k = k + 1;
    }
    let mut info = ComputerInfo::default();
    match &outputs[0] {
        Ok(out) => {
            proof {
                assert(ok_views(outputs@)[0] == out@);
            }
            info.parse_hardware_info(out.as_str());
        },
        Err(_) => {
            proof {
                assert(false);
            }
        },
    }
    match &outputs[1] {
        Ok(out) => {
            proof {
                assert(ok_views(outputs@)[1] == out@);
            }
            info.parse_system_info(out.as_str());
        },
        Err(_) => {
            proof {
                assert(false);
            }
        },
    }
    match &outputs[2] {
        Ok(out) => {
            proof {
                assert(ok_views(outputs@)[2] == out@);
            }
            info.parse_network_info(out.as_str());
        },
        Err(_) => {
            proof {
                assert(false);
            }
        },
    }
    match &outputs[3] {
        Ok(out) => {
            proof {
                assert(ok_views(outputs@)[3] == out@);
            }
            info.parse_storage_info(out.as_str());
        },
        Err(_) => {
            proof {
                assert(false);
            }
        },
    }
    match &outputs[4] {
        Ok(out) => {
            proof {
                assert(ok_views(outputs@)[4] == out@);
            }
            info.parse_users_info(out.as_str());
        },
        Err(_) => {
            proof {
                assert(false);
            }
        },
    }
    match &outputs[5] {
        Ok(out) => {
            proof {
                assert(ok_views(outputs@)[5] == out@);
            }
            info.parse_graphics_info(out.as_str());
        },
        Err(_) => {
            proof {
                assert(false);
            }
        },
    }
    info.network_name = String::from_str(host);
    proof {
        assert(info@ =~~= spec_resolved(host@, ok_views(outputs@)));
    }
    Ok(info)
}

} // verus!
