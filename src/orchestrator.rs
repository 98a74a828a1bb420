use vstd::prelude::*;

use crate::common::{err_view, CommandResult, ErrorView, SetupError};
use crate::partition::{
    fields_valid, partition_device, partition_regions, table_label, validation_error, PartitionConfig,
    PlanView,
};
use crate::text::decimal;
use crate::text::decimal_text;

verus! {

/// One external program to run, with its arguments.
#[derive(Debug)]
pub struct Invocation {
    pub program: String,
    pub args: Vec<String>,
}

/// One step of a partitioning run.
#[derive(Debug)]
pub enum Step {
    /// Run a program; the run goes on only if it succeeds.
    Run(Invocation),
    /// Wait this many milliseconds so the kernel can create device nodes.
    Settle(u64),
}

/// A step as mathematical values: a program with its arguments, or a wait.
pub ghost enum StepView {
    Run(Seq<char>, Seq<Seq<char>>),
    Settle(nat),
}

/// The text of each argument.
pub open spec fn texts(v: Seq<String>) -> Seq<Seq<char>> {
    v.map_values(|a: String| a@)
}

impl View for Invocation {
    type V = StepView;

    open spec fn view(&self) -> StepView {
        StepView::Run(self.program@, texts(self.args@))
    }
}

impl View for Step {
    type V = StepView;

    open spec fn view(&self) -> StepView {
        match self {
            Step::Run(inv) => inv@,
            Step::Settle(ms) => StepView::Settle(*ms as nat),
        }
    }
}

/// Steps as mathematical values.
pub open spec fn step_views(v: Seq<Step>) -> Seq<StepView> {
    v.map_values(|s: Step| s@)
}

/// How long to wait after the kernel rereads the partition table, in milliseconds.
pub const SETTLE_MS: u64 = 1000;

/// `n` MiB as `parted` reads a position.
pub open spec fn mib(n: nat) -> Seq<char> {
    decimal(n) + "MiB"@
}

/// A `parted` call in script mode on `disk`.
pub open spec fn parted(disk: Seq<char>, rest: Seq<Seq<char>>) -> StepView {
    StepView::Run("parted"@, seq!["-s"@, disk] + rest)
}

/// The flag that makes the boot partition bootable for the table kind.
pub open spec fn boot_flag(use_gpt: bool) -> Seq<char> {
    if use_gpt {
        "esp"@
    } else {
        "boot"@
    }
}

/// The call that creates a root filesystem of kind `fs` on `device`.
pub open spec fn root_format(fs: Seq<char>, device: Seq<char>) -> StepView {
    if fs == "ext4"@ {
        StepView::Run("mkfs.ext4"@, seq!["-F"@, device])
    } else if fs == "btrfs"@ {
        StepView::Run("mkfs.btrfs"@, seq!["-f"@, device])
    } else {
        StepView::Run("mkfs.xfs"@, seq!["-f"@, device])
    }
}

/// The whole partitioning run for a valid layout, in order: the table, the
/// three partitions, the boot flag, the kernel reread, the settle delay, and
/// the three formats.
pub open spec fn partition_steps(c: PlanView) -> Seq<StepView> {
    let boot_end = (1 + c.boot_size_mb) as nat;
    let swap_end = (boot_end + c.swap_size_mb) as nat;
    seq![
        parted(c.disk, seq!["mklabel"@, table_label(c.use_gpt)]),
        parted(c.disk, seq!["mkpart"@, "primary"@, "fat32"@, mib(1), mib(boot_end)]),
        parted(c.disk, seq!["mkpart"@, "primary"@, "linux-swap"@, mib(boot_end), mib(swap_end)]),
        parted(c.disk, seq!["mkpart"@, "primary"@, c.filesystem, mib(swap_end), "100%"@]),
        parted(c.disk, seq!["set"@, "1"@, boot_flag(c.use_gpt), "on"@]),
        StepView::Run("partprobe"@, seq![c.disk]),
        StepView::Settle(SETTLE_MS as nat),
        StepView::Run("mkfs.fat"@, seq!["-F32"@, partition_device(c.disk, 1)]),
        StepView::Run("mkswap"@, seq![partition_device(c.disk, 2)]),
        root_format(c.filesystem, partition_device(c.disk, 3)),
    ]
}

/// A step that creates a partition.
pub open spec fn is_partition_create(s: StepView) -> bool {
    match s {
        StepView::Run(p, a) => p == "parted"@ && a.len() > 2 && a[2] == "mkpart"@,
        _ => false,
    }
}

/// A step that writes a filesystem or swap signature.
pub open spec fn is_format(s: StepView) -> bool {
    match s {
        StepView::Run(p, _) => p == "mkfs.fat"@ || p == "mkswap"@ || p == "mkfs.ext4"@ || p
            == "mkfs.btrfs"@ || p == "mkfs.xfs"@,
        _ => false,
    }
}

/// An owned copy of a text.
pub(crate) fn owned(s: &str) -> (r: String)
    ensures
        r@ == s@,
{
    String::from_str(s)
}

fn mib_text(n: u64) -> (r: String)
    ensures
        r@ == mib(n as nat),
{
    decimal_text(n).concat("MiB")
}

fn run(program: &str, args: Vec<String>) -> (r: Step)
    ensures
        r@ == StepView::Run(program@, texts(args@)),
{
    Step::Run(Invocation { program: owned(program), args })
}

fn parted_step(disk: &String, rest: Vec<String>) -> (r: Step)
    ensures
        r@ == parted(disk@, texts(rest@)),
{
    let mut args: Vec<String> = Vec::new();
    args.push(owned("-s"));
    args.push(disk.clone());
    let mut i: usize = 0;
    let ghost front = texts(args@);
    assert(front =~= seq!["-s"@, disk@]);
    while i < rest.len()
        invariant
            i <= rest.len(),
            front == seq!["-s"@, disk@],
            texts(args@) =~= front + texts(rest@).take(i as int),
        decreases rest.len() - i,
    {
        let ghost before = args@;
        args.push(rest[i].clone());
        assert(texts(args@) =~= texts(before).push(rest@[i as int]@));
        assert(texts(rest@).take(i + 1) =~= texts(rest@).take(i as int).push(rest@[i as int]@));
        i = i + 1;
    }
    assert(texts(rest@).take(rest.len() as int) =~= texts(rest@));
    run("parted", args)
}

fn args1(a: String) -> (r: Vec<String>)
    ensures
        texts(r@) == seq![a@],
{
    let mut r: Vec<String> = Vec::new();
    r.push(a);
    assert(texts(r@) =~= seq![a@]);
    r
}

fn args2(a: String, b: String) -> (r: Vec<String>)
    ensures
        texts(r@) == seq![a@, b@],
{
    let mut r: Vec<String> = Vec::new();
    r.push(a);
    r.push(b);
    assert(texts(r@) =~= seq![a@, b@]);
    r
}

fn args4(a: String, b: String, c: String, d: String) -> (r: Vec<String>)
    ensures
        texts(r@) == seq![a@, b@, c@, d@],
{
    let mut r: Vec<String> = Vec::new();
    r.push(a);
    r.push(b);
    r.push(c);
    r.push(d);
    assert(texts(r@) =~= seq![a@, b@, c@, d@]);
    r
}

fn args5(a: String, b: String, c: String, d: String, e: String) -> (r: Vec<String>)
    ensures
        texts(r@) == seq![a@, b@, c@, d@, e@],
{
    let mut r: Vec<String> = Vec::new();
    r.push(a);
    r.push(b);
    r.push(c);
    r.push(d);
    r.push(e);
    assert(texts(r@) =~= seq![a@, b@, c@, d@, e@]);
    r
}

fn root_format_step(fs: &String, device: String) -> (r: Step)
    requires
        fs@ == "ext4"@ || fs@ == "btrfs"@ || fs@ == "xfs"@,
    ensures
        r@ == root_format(fs@, device@),
{
    if *fs == owned("ext4") {
        run("mkfs.ext4", args2(owned("-F"), device))
    } else if *fs == owned("btrfs") {
        run("mkfs.btrfs", args2(owned("-f"), device))
    } else {
        run("mkfs.xfs", args2(owned("-f"), device))
    }
}

/// The steps that carry out `config`, which must have passed validation.
pub fn plan_steps(config: &PartitionConfig) -> (r: Vec<Step>)
    requires
        fields_valid(config@),
    ensures
        step_views(r@) == partition_steps(config@),
{
    let disk = &config.disk;
    let regions = partition_regions(config.boot_size_mb, config.swap_size_mb);
    let table = if config.use_gpt {
        owned("gpt")
    } else {
        owned("msdos")
    };
    let flag = if config.use_gpt {
        owned("esp")
    } else {
        owned("boot")
    };
    let (boot_dev, swap_dev, root_dev) = config.get_partition_names();
    let mut steps: Vec<Step> = Vec::new();
    steps.push(parted_step(disk, args2(owned("mklabel"), table)));
    steps.push(
        parted_step(
            disk,
            args5(
                owned("mkpart"),
                owned("primary"),
                owned("fat32"),
                mib_text(regions.boot_start),
                mib_text(regions.boot_end),
            ),
        ),
    );
    steps.push(
        parted_step(
            disk,
            args5(
                owned("mkpart"),
                owned("primary"),
                owned("linux-swap"),
                mib_text(regions.swap_start),
                mib_text(regions.swap_end),
            ),
        ),
    );
    steps.push(
        parted_step(
            disk,
            args5(
                owned("mkpart"),
                owned("primary"),
                config.filesystem.clone(),
                mib_text(regions.root_start),
                owned("100%"),
            ),
        ),
    );
    steps.push(parted_step(disk, args4(owned("set"), owned("1"), flag, owned("on"))));
    steps.push(run("partprobe", args1(disk.clone())));
    steps.push(Step::Settle(SETTLE_MS));
    steps.push(run("mkfs.fat", args2(owned("-F32"), boot_dev)));
    steps.push(run("mkswap", args1(swap_dev)));
    steps.push(root_format_step(&config.filesystem, root_dev));
    assert(step_views(steps@) =~= partition_steps(config@));
    steps
}

/// A partitioning run as mathematical values: its steps, how many have
/// succeeded, and the error of the step that failed, if one did.
pub ghost struct SessionView {
    pub steps: Seq<StepView>,
    pub done: nat,
    pub failed: Option<ErrorView>,
}

/// What a run asks for next.
pub enum Progress<'a> {
    /// Carry out this step and record its outcome.
    Pending(&'a Step),
    /// Every step succeeded.
    Finished,
    /// A step failed; nothing more is to be done.
    Halted(&'a SetupError),
}

/// A run's next request as mathematical values.
pub ghost enum ProgressView {
    Pending(StepView),
    Finished,
    Halted(ErrorView),
}

impl<'a> View for Progress<'a> {
    type V = ProgressView;

    open spec fn view(&self) -> ProgressView {
        match self {
            Progress::Pending(s) => ProgressView::Pending(s@),
            Progress::Finished => ProgressView::Finished,
            Progress::Halted(e) => ProgressView::Halted(e@),
        }
    }
}

/// What a run in state `v` asks for next.
pub open spec fn progress_of(v: SessionView) -> ProgressView {
    match v.failed {
        Some(e) => ProgressView::Halted(e),
        None => if v.done < v.steps.len() {
            ProgressView::Pending(v.steps[v.done as int])
        } else {
            ProgressView::Finished
        },
    }
}

/// The state after the pending step of `v` reported `outcome` (`None` for success).
pub open spec fn after(v: SessionView, outcome: Option<ErrorView>) -> SessionView {
    match outcome {
        None => SessionView { done: v.done + 1, ..v },
        Some(e) => SessionView { failed: Some(e), ..v },
    }
}

/// The steps handed out so far: the ones that succeeded, and the one that
/// failed, if any.
pub open spec fn issued(v: SessionView) -> Seq<StepView> {
    if v.failed is Some {
        v.steps.take(v.done + 1 as int)
    } else {
        v.steps.take(v.done as int)
    }
}

/// A run of `c` that has not carried out any step yet.
pub open spec fn fresh_session(c: PlanView) -> SessionView {
    SessionView { steps: partition_steps(c), done: 0, failed: None }
}

/// A partitioning run in progress. Steps are handed out one at a time, in
/// order; the first failure halts the run, and nothing is undone.
pub struct PartitionSession {
    steps: Vec<Step>,
    done: usize,
    failure: Option<SetupError>,
}

impl View for PartitionSession {
    type V = SessionView;

    closed spec fn view(&self) -> SessionView {
        SessionView {
            steps: step_views(self.steps@),
            done: self.done as nat,
            failed: match self.failure {
                Some(e) => Some(e@),
                None => None,
            },
        }
    }
}

impl PartitionSession {
    /// The internal consistency of a run.
    pub closed spec fn wf(&self) -> bool {
        &&& self.done <= self.steps.len()
        &&& self.failure is Some ==> self.done < self.steps.len()
    }

    /// A run of `config`, whose fields must have passed validation.
    pub fn for_plan(config: &PartitionConfig) -> (r: Self)
        requires
            fields_valid(config@),
        ensures
            r.wf(),
            r@ == fresh_session(config@),
    {
        let r = PartitionSession { steps: plan_steps(config), done: 0, failure: None };
        r
    }

    /// Validates `config`, the disk's existence included, and only then
    /// prepares its run.
    pub fn start(config: &PartitionConfig) -> (r: CommandResult<Self>)
        ensures
            !fields_valid(config@) ==> err_view(r) == validation_error(config@, true),
            fields_valid(config@) ==> (r matches Ok(s) && s.wf() && s@ == fresh_session(config@))
                || err_view(r) == validation_error(config@, false),
    {
        match config.validate() {
            Ok(()) => Ok(Self::for_plan(config)),
            Err(e) => Err(e),
        }
    }

    /// What the run asks for next.
    pub fn progress(&self) -> (r: Progress<'_>)
        requires
            self.wf(),
        ensures
            r@ == progress_of(self@),
    {
        match &self.failure {
            Some(e) => Progress::Halted(e),
            None => if self.done < self.steps.len() {
                Progress::Pending(&self.steps[self.done])
            } else {
                Progress::Finished
            },
        }
    }

    /// Records the outcome of the pending step: success moves on to the next
    /// step, an error halts the run on it.
    pub fn record(&mut self, outcome: CommandResult<String>)
        requires
            old(self).wf(),
            progress_of(old(self)@) is Pending,
        ensures
            final(self).wf(),
            final(self)@ == after(old(self)@, err_view(outcome)),
    {
        match outcome {
            Ok(_) => {
                self.done = self.done + 1;
            },
            Err(e) => {
                self.failure = Some(e);
            },
        }
    }

    /// How a run that asks for nothing more ended.
    pub fn into_result(self) -> (r: CommandResult<()>)
        requires
            self.wf(),
            !(progress_of(self@) is Pending),
        ensures
            err_view(r) == self@.failed,
    {
        match self.failure {
            Some(e) => Err(e),
            None => Ok(()),
        }
    }
}

/// Once a step has failed the run hands out nothing more: it is halted on that
/// step's error. When the failed step created a partition, it was one of the
/// first three partition steps, and no formatting step has been handed out.
pub proof fn lemma_failed_create_prevents_formatting(c: PlanView, v: SessionView)
    requires
        fields_valid(c),
        v.steps == partition_steps(c),
        v.done < v.steps.len(),
        v.failed is Some,
        is_partition_create(v.steps[v.done as int]),
    ensures
        progress_of(v) == ProgressView::Halted(v.failed->0),
        1 <= v.done <= 3,
        forall|i: int| 0 <= i < issued(v).len() ==> !is_format(#[trigger] issued(v)[i]),
{
    reveal_strlit("parted");
    reveal_strlit("partprobe");
    reveal_strlit("mklabel");
    reveal_strlit("mkpart");
    reveal_strlit("set");
    reveal_strlit("mkfs.fat");
    reveal_strlit("mkswap");
    reveal_strlit("mkfs.ext4");
    reveal_strlit("mkfs.btrfs");
    reveal_strlit("mkfs.xfs");
    reveal_strlit("-s");
    let s = partition_steps(c);
    let d = v.done as int;
    assert(d != 0) by {
        if d == 0 {
            assert(s[0] == parted(c.disk, seq!["mklabel"@, table_label(c.use_gpt)]));
            assert((seq!["-s"@, c.disk] + seq!["mklabel"@, table_label(c.use_gpt)])[2]
                == "mklabel"@);
            assert("mklabel"@[2] != "mkpart"@[2]);
        }
    }
    assert(d != 4) by {
        if d == 4 {
            assert((seq!["-s"@, c.disk] + seq!["set"@, "1"@, boot_flag(c.use_gpt), "on"@])[2]
                == "set"@);
            assert("set"@.len() != "mkpart"@.len());
        }
    }
    assert(d < 5) by {
        if d == 5 {
            assert("partprobe"@.len() != "parted"@.len());
        } else if d == 7 {
            assert("mkfs.fat"@[1] != "parted"@[1]);
        } else if d == 8 {
            assert("mkswap"@[1] != "parted"@[1]);
        } else if d == 9 {
            assert("mkfs.ext4"@[1] != "parted"@[1]);
            assert("mkfs.btrfs"@[1] != "parted"@[1]);
            assert("mkfs.xfs"@[1] != "parted"@[1]);
        }
    }
    assert forall|i: int| 0 <= i < issued(v).len() implies !is_format(#[trigger] issued(v)[i]) by {
        assert(issued(v)[i] == s[i]);
        assert("parted"@[1] != "mkfs.fat"@[1]);
        assert("parted"@[1] != "mkswap"@[1]);
        assert("parted"@[1] != "mkfs.ext4"@[1]);
        assert("parted"@[1] != "mkfs.btrfs"@[1]);
        assert("parted"@[1] != "mkfs.xfs"@[1]);
    }
}

} // verus!
