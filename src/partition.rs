use vstd::prelude::*;

use crate::common::{err_view, CommandResult, ErrorView, SetupError};
use crate::orchestrator::{Invocation, StepView};
use crate::text::{
    contains, contains_text, decimal, decimal_text, free_of, lemma_decimal_reads_back,
    lemma_split_first, lemma_split_single, parse_u32, split_on, split_text, starts_with,
    starts_with_text, u32_of_text,
};

verus! {

/// A requested disk layout: boot, swap and root partitions on one disk.
#[derive(Debug, Clone)]
pub struct PartitionConfig {
    pub disk: String,
    pub boot_size_mb: u32,
    pub swap_size_mb: u32,
    pub use_gpt: bool,
    pub filesystem: String,
}

/// A layout as mathematical values.
pub ghost struct PlanView {
    pub disk: Seq<char>,
    pub boot_size_mb: u32,
    pub swap_size_mb: u32,
    pub use_gpt: bool,
    pub filesystem: Seq<char>,
}

impl View for PartitionConfig {
    type V = PlanView;

    open spec fn view(&self) -> PlanView {
        PlanView {
            disk: self.disk@,
            boot_size_mb: self.boot_size_mb,
            swap_size_mb: self.swap_size_mb,
            use_gpt: self.use_gpt,
            filesystem: self.filesystem@,
        }
    }
}

/// Smallest boot partition, in MB.
pub const MIN_BOOT_MB: u32 = 100;

/// Largest boot partition, in MB.
pub const MAX_BOOT_MB: u32 = 2048;

/// Smallest swap partition, in MB.
pub const MIN_SWAP_MB: u32 = 512;

/// The namespace every disk path must lie in.
pub open spec fn device_namespace() -> Seq<char> {
    "/dev/"@
}

/// The root filesystems the wizard can create.
pub open spec fn supported_filesystem(fs: Seq<char>) -> bool {
    fs == "ext4"@ || fs == "btrfs"@ || fs == "xfs"@
}

/// Message for a disk path outside the device namespace.
pub open spec fn bad_prefix_message() -> Seq<char> {
    "Disk path must start with /dev/"@
}

/// Message for a boot size out of range.
pub open spec fn bad_boot_message() -> Seq<char> {
    "Boot size must be 100-2048 MB"@
}

/// Message for a swap size below the minimum.
pub open spec fn bad_swap_message() -> Seq<char> {
    "Swap size must be at least 512 MB"@
}

/// Message for an unsupported root filesystem.
pub open spec fn bad_filesystem_message() -> Seq<char> {
    "Filesystem must be ext4, btrfs, or xfs"@
}

/// Message for a disk that does not exist.
pub open spec fn missing_disk_message(disk: Seq<char>) -> Seq<char> {
    "Disk "@ + disk + " does not exist"@
}

/// The first field of `c` that breaks its rule, as the message that reports it.
pub open spec fn field_problem(c: PlanView) -> Option<Seq<char>> {
    if !starts_with_text(c.disk, device_namespace()) {
        Some(bad_prefix_message())
    } else if !(MIN_BOOT_MB <= c.boot_size_mb <= MAX_BOOT_MB) {
        Some(bad_boot_message())
    } else if c.swap_size_mb < MIN_SWAP_MB {
        Some(bad_swap_message())
    } else if !supported_filesystem(c.filesystem) {
        Some(bad_filesystem_message())
    } else {
        None
    }
}

/// Every field of `c` keeps its rule.
pub open spec fn fields_valid(c: PlanView) -> bool {
    field_problem(c) is None
}

/// Why `c` is refused, given whether its disk exists; `None` when it is accepted.
/// The fields are checked first, the disk's existence last.
pub open spec fn validation_error(c: PlanView, disk_exists: bool) -> Option<ErrorView> {
    match field_problem(c) {
        Some(m) => Some(ErrorView::InvalidInput(m)),
        None => if disk_exists {
            None
        } else {
            Some(ErrorView::InvalidInput(missing_disk_message(c.disk)))
        },
    }
}

/// A filesystem other than exactly `ext4`, `btrfs` or `xfs` (a change of letter
/// case included) is refused as invalid input, whatever the other fields hold
/// and whether or not the disk exists.
pub proof fn lemma_unsupported_filesystem_refused(c: PlanView, disk_exists: bool)
    requires
        !supported_filesystem(c.filesystem),
    ensures
        validation_error(c, disk_exists) matches Some(ErrorView::InvalidInput(_)),
{
}

/// With a disk path under the device namespace and a supported filesystem, a
/// layout passes the field checks exactly when its boot size lies between 100
/// and 2048 MB, both included, and its swap size is at least 512 MB.
pub proof fn lemma_size_bounds(c: PlanView)
    requires
        starts_with_text(c.disk, device_namespace()),
        supported_filesystem(c.filesystem),
    ensures
        fields_valid(c) <==> (100 <= c.boot_size_mb <= 2048 && c.swap_size_mb >= 512),
{
}

/// Relies on std::path::Path::exists: whether the file system holds an entry at
/// the path right now. The answer depends on the machine and the moment, so
/// nothing is promised of it.
#[verifier::external_body]
fn path_exists(path: &str) -> (r: bool) {
    std::path::Path::new(path).exists()
}

fn supported_filesystem_exec(fs: &String) -> (r: bool)
    ensures
        r == supported_filesystem(fs@),
{
    *fs == String::from_str("ext4") || *fs == String::from_str("btrfs") || *fs
        == String::from_str("xfs")
}

/// Message for a configuration string without exactly five fields.
pub open spec fn field_count_message() -> Seq<char> {
    "Format: disk:boot_size:swap_size:gpt/msdos:filesystem"@
}

/// The layout a `disk:boot:swap:table:filesystem` string describes, before
/// validation. The table is GPT exactly for the text `gpt`.
pub open spec fn parse_plan(text: Seq<char>) -> Result<PlanView, ErrorView> {
    let f = split_text(text, ':');
    if f.len() != 5 {
        Err(ErrorView::InvalidInput(field_count_message()))
    } else {
        match (u32_of_text(f[1]), u32_of_text(f[2])) {
            (None, _) => Err(ErrorView::InvalidInput("Invalid boot size"@)),
            (Some(_), None) => Err(ErrorView::InvalidInput("Invalid swap size"@)),
            (Some(boot), Some(swap)) => Ok(
                PlanView {
                    disk: f[0],
                    boot_size_mb: boot,
                    swap_size_mb: swap,
                    use_gpt: f[3] == "gpt"@,
                    filesystem: f[4],
                },
            ),
        }
    }
}

/// The label of a table kind in a configuration string, as `parted` takes it.
pub open spec fn table_label(use_gpt: bool) -> Seq<char> {
    if use_gpt {
        "gpt"@
    } else {
        "msdos"@
    }
}

/// The configuration string that writes out a layout's fields.
pub open spec fn config_text(
    disk: Seq<char>,
    boot_size_mb: u32,
    swap_size_mb: u32,
    use_gpt: bool,
    filesystem: Seq<char>,
) -> Seq<char> {
    disk + seq![':'] + decimal(boot_size_mb as nat) + seq![':'] + decimal(swap_size_mb as nat)
        + seq![':'] + table_label(use_gpt) + seq![':'] + filesystem
}

/// Writing out valid fields as a configuration string and reading it back gives,
/// field for field, the layout built from those fields. (A disk path holding a
/// colon cannot be written out this way.)
pub proof fn lemma_parse_of_format(
    disk: Seq<char>,
    boot_size_mb: u32,
    swap_size_mb: u32,
    use_gpt: bool,
    filesystem: Seq<char>,
)
    requires
        free_of(disk, ':'),
        fields_valid(PlanView { disk, boot_size_mb, swap_size_mb, use_gpt, filesystem }),
    ensures
        parse_plan(config_text(disk, boot_size_mb, swap_size_mb, use_gpt, filesystem)) == Ok::<
            PlanView,
            ErrorView,
        >(PlanView { disk, boot_size_mb, swap_size_mb, use_gpt, filesystem }),
{
    reveal_strlit("gpt");
    reveal_strlit("msdos");
    reveal_strlit("ext4");
    reveal_strlit("btrfs");
    reveal_strlit("xfs");
    let b = decimal(boot_size_mb as nat);
    let s = decimal(swap_size_mb as nat);
    let t = table_label(use_gpt);
    lemma_decimal_reads_back(boot_size_mb);
    lemma_decimal_reads_back(swap_size_mb);
    assert(free_of(t, ':'));
    assert(free_of(filesystem, ':'));
    let r3 = t + seq![':'] + filesystem;
    let r2 = s + seq![':'] + r3;
    let r1 = b + seq![':'] + r2;
    let text = config_text(disk, boot_size_mb, swap_size_mb, use_gpt, filesystem);
    assert(text =~= disk + seq![':'] + r1);
    lemma_split_single(filesystem, ':');
    lemma_split_first(t, filesystem, ':');
    lemma_split_first(s, r3, ':');
    lemma_split_first(b, r2, ':');
    lemma_split_first(disk, r1, ':');
    let f = split_text(text, ':');
    assert(f =~= seq![disk, b, s, t, filesystem]);
    assert((t == "gpt"@) == use_gpt);
}

/// The device-family markers, in order, each with the text placed between the
/// disk name and a partition number when the marker occurs in the disk name.
pub open spec fn naming_rules() -> Seq<(Seq<char>, Seq<char>)> {
    seq![("nvme"@, "p"@), ("mmc"@, "p"@)]
}

/// The infix of the first rule whose marker occurs in `disk`; empty when none does.
pub open spec fn infix_by(rules: Seq<(Seq<char>, Seq<char>)>, disk: Seq<char>) -> Seq<char>
    decreases rules.len(),
{
    if rules.len() == 0 {
        Seq::empty()
    } else if contains_text(disk, rules[0].0) {
        rules[0].1
    } else {
        infix_by(rules.skip(1), disk)
    }
}

/// Device name of partition `index` on `disk`.
pub open spec fn partition_device(disk: Seq<char>, index: nat) -> Seq<char> {
    disk + infix_by(naming_rules(), disk) + decimal(index)
}

fn naming_rule_table() -> (r: Vec<(&'static str, &'static str)>)
    ensures
        r@.map_values(|p: (&str, &str)| (p.0@, p.1@)) == naming_rules(),
{
    let mut r: Vec<(&'static str, &'static str)> = Vec::new();
    r.push(("nvme", "p"));
    r.push(("mmc", "p"));
    assert(r@.map_values(|p: (&str, &str)| (p.0@, p.1@)) =~= naming_rules());
    r
}

/// The infix that the naming rules give `disk`.
fn naming_infix(disk: &str) -> (r: &'static str)
    ensures
        r@ == infix_by(naming_rules(), disk@),
{
    let rules = naming_rule_table();
    let ghost all = rules@.map_values(|p: (&str, &str)| (p.0@, p.1@));
    let mut i: usize = 0;
    assert(all.skip(0) =~= all);
    while i < rules.len()
        invariant
            i <= rules.len(),
            all == rules@.map_values(|p: (&str, &str)| (p.0@, p.1@)),
            all == naming_rules(),
            infix_by(all.skip(i as int), disk@) == infix_by(naming_rules(), disk@),
        decreases rules.len() - i,
    {
        let (marker, infix) = rules[i];
        assert(all.skip(i as int)[0] == (marker@, infix@));
        if contains(disk, marker) {
            return infix;
        }
        assert(all.skip(i as int).skip(1) =~= all.skip(i + 1));
        i = i + 1;
    }
    proof {
        reveal_strlit("");
    }
    ""
}

/// Where each partition lies on the disk, in MiB from its start: each region
/// runs from its start up to, not including, its end; the root partition runs
/// from `root_start` to the end of the disk.
#[derive(Debug, Clone, Copy, PartialEq, Eq)]
pub struct Regions {
    pub boot_start: u64,
    pub boot_end: u64,
    pub swap_start: u64,
    pub swap_end: u64,
    pub root_start: u64,
}

/// Carves boot and swap regions of the given sizes, contiguously from 1 MiB,
/// and leaves the rest of the disk to the root partition.
pub fn partition_regions(boot_size_mb: u32, swap_size_mb: u32) -> (r: Regions)
    ensures
        r.boot_start == 1,
        r.boot_end == 1 + boot_size_mb,
        r.swap_start == r.boot_end,
        r.swap_end == r.boot_end + swap_size_mb,
        r.root_start == r.swap_end,
{
    let boot_end = 1 + boot_size_mb as u64;
    let swap_end = boot_end + swap_size_mb as u64;
    Regions {
        boot_start: 1,
        boot_end,
        swap_start: boot_end,
        swap_end,
        root_start: swap_end,
    }
}

impl PartitionConfig {
    /// A layout with exactly the given fields, not yet validated.
    pub fn new(
        disk: String,
        boot_size_mb: u32,
        swap_size_mb: u32,
        use_gpt: bool,
        filesystem: String,
    ) -> (r: Self)
        ensures
            r@ == (PlanView { disk: disk@, boot_size_mb, swap_size_mb, use_gpt, filesystem: filesystem@ }),
    {
        PartitionConfig { disk, boot_size_mb, swap_size_mb, use_gpt, filesystem }
    }

    /// Checks every field, then that the disk exists according to `disk_exists`.
    pub fn validate_with(&self, disk_exists: bool) -> (r: CommandResult<()>)
        ensures
            err_view(r) == validation_error(self@, disk_exists),
    {
        if !starts_with(self.disk.as_str(), "/dev/") {
            return Err(SetupError::InvalidInput(String::from_str("Disk path must start with /dev/")));
        }
        if !(MIN_BOOT_MB <= self.boot_size_mb && self.boot_size_mb <= MAX_BOOT_MB) {
            return Err(SetupError::InvalidInput(String::from_str("Boot size must be 100-2048 MB")));
        }
        if self.swap_size_mb < MIN_SWAP_MB {
            return Err(
                SetupError::InvalidInput(String::from_str("Swap size must be at least 512 MB")),
            );
        }
        if !supported_filesystem_exec(&self.filesystem) {
            return Err(
                SetupError::InvalidInput(String::from_str("Filesystem must be ext4, btrfs, or xfs")),
            );
        }
        if !disk_exists {
            let m = String::from_str("Disk ").concat(self.disk.as_str()).concat(" does not exist");
            return Err(SetupError::InvalidInput(m));
        }
        Ok(())
    }

    /// Checks every field, then that the disk exists on this machine now.
    pub fn validate(&self) -> (r: CommandResult<()>)
        ensures
            field_problem(self@) is Some ==> err_view(r) == validation_error(self@, true),
            field_problem(self@) is None ==> r is Ok || err_view(r) == validation_error(
                self@,
                false,
            ),
    {
        let exists = path_exists(self.disk.as_str());
        self.validate_with(exists)
    }

    /// Reads a `disk:boot:swap:table:filesystem` string into a layout without
    /// validating it.
    pub fn parse_fields(text: &str) -> (r: CommandResult<Self>)
        ensures
            match parse_plan(text@) {
                Ok(v) => r matches Ok(c) && c@ == v,
                Err(e) => err_view(r) == Some(e),
            },
    {
        let parts = split_on(text, ':');
        let ghost f = parts@.map_values(|p: String| p@);
        if parts.len() != 5 {
            return Err(
                SetupError::InvalidInput(
                    String::from_str("Format: disk:boot_size:swap_size:gpt/msdos:filesystem"),
                ),
            );
        }
        assert(f[1] == parts[1]@ && f[2] == parts[2]@);
        let boot_size_mb = match parse_u32(parts[1].as_str()) {
            Some(v) => v,
            None => {
                return Err(SetupError::InvalidInput(String::from_str("Invalid boot size")));
            },
        };
        let swap_size_mb = match parse_u32(parts[2].as_str()) {
            Some(v) => v,
            None => {
                return Err(SetupError::InvalidInput(String::from_str("Invalid swap size")));
            },
        };
        assert(f[0] == parts[0]@ && f[3] == parts[3]@ && f[4] == parts[4]@);
        let use_gpt = parts[3] == String::from_str("gpt");
        Ok(
            Self::new(
                parts[0].clone(),
                boot_size_mb,
                swap_size_mb,
                use_gpt,
                parts[4].clone(),
            ),
        )
    }

    /// Reads a `disk:boot:swap:table:filesystem` string and validates the
    /// layout it describes, the disk's existence included.
    pub fn from_string(text: &str) -> (r: CommandResult<Self>)
        ensures
            match parse_plan(text@) {
                Err(e) => err_view(r) == Some(e),
                Ok(v) => if fields_valid(v) {
                    (r matches Ok(c) && c@ == v) || err_view(r) == validation_error(v, false)
                } else {
                    err_view(r) == validation_error(v, true)
                },
            },
    {
        let config = match Self::parse_fields(text) {
            Ok(c) => c,
            Err(e) => {
                return Err(e);
            },
        };
        match config.validate() {
            Ok(()) => Ok(config),
            Err(e) => Err(e),
        }
    }

    /// Device names of the boot, swap and root partitions (numbers 1, 2, 3).
    pub fn get_partition_names(&self) -> (r: (String, String, String))
        ensures
            r.0@ == partition_device(self.disk@, 1),
            r.1@ == partition_device(self.disk@, 2),
            r.2@ == partition_device(self.disk@, 3),
    {
        let prefix = self.disk.clone().concat(naming_infix(self.disk.as_str()));
        let boot = prefix.clone().concat(decimal_text(1).as_str());
        let swap = prefix.clone().concat(decimal_text(2).as_str());
        let root = prefix.concat(decimal_text(3).as_str());
        (boot, swap, root)
    }
}

/// The call that lists the machine's block devices.
pub fn list_disks() -> (r: Invocation)
    ensures
        r@ == StepView::Run("lsblk"@, seq!["-o"@, "NAME,SIZE,TYPE,MOUNTPOINT"@]),
{
    let mut args: Vec<String> = Vec::new();
    args.push(String::from_str("-o"));
    args.push(String::from_str("NAME,SIZE,TYPE,MOUNTPOINT"));
    proof {
        assert(args@.map_values(|a: String| a@) =~= seq!["-o"@, "NAME,SIZE,TYPE,MOUNTPOINT"@]);
    }
    Invocation { program: String::from_str("lsblk"), args }
}

/// The call that shows the partitions of `disk` with their filesystems.
pub fn get_partition_info(disk: &str) -> (r: Invocation)
    ensures
        r@ == StepView::Run("lsblk"@, seq!["-o"@, "NAME,SIZE,TYPE,FSTYPE"@, disk@]),
{
    let mut args: Vec<String> = Vec::new();
    args.push(String::from_str("-o"));
    args.push(String::from_str("NAME,SIZE,TYPE,FSTYPE"));
    args.push(String::from_str(disk));
    proof {
        assert(args@.map_values(|a: String| a@) =~= seq![
            "-o"@,
            "NAME,SIZE,TYPE,FSTYPE"@,
            disk@,
        ]);
    }
    Invocation { program: String::from_str("lsblk"), args }
}

} // verus!
