use vstd::prelude::*;

use crate::common::{err_view, CommandResult, ErrorView, SetupError};
use crate::orchestrator::{owned, Invocation, StepView};
use crate::text::{
    first_index, first_white, first_word, lemma_first_index_is,
    split_on, split_text, starts_with, starts_with_text, trim, trim_text,
};

verus! {

/// `ssid` or `ssid:password`: the SSID up to the first colon, and the rest, colons
/// included, as the password.
pub open spec fn wifi_config_parts(s: Seq<char>) -> (Seq<char>, Option<Seq<char>>) {
    let k = first_index(s, ':') as int;
    if k >= s.len() {
        (s, None)
    } else {
        (s.take(k), Some(s.skip(k + 1)))
    }
}

/// Splits a wifi connection string into SSID and optional password.
pub fn parse_wifi_config(config: &str) -> (r: (&str, Option<&str>))
    ensures
        r.0@ == wifi_config_parts(config@).0,
        match wifi_config_parts(config@).1 {
            None => r.1 is None,
            Some(p) => r.1 matches Some(q) && q@ == p,
        },
{
    let n = config.unicode_len();
    let mut i: usize = 0;
    while i < n && config.get_char(i) != ':'
        invariant
            n == config@.len(),
            i <= n,
            forall|j: int| 0 <= j < i ==> config@[j] != ':',
        decreases n - i,
    {
        i = i + 1;
    }
    proof {
        lemma_first_index_is(config@, ':', i as int);
    }
    if i == n {
        assert(config@.subrange(0, n as int) =~= config@);
        (config, None)
    } else {
        let ssid = config.substring_char(0, i);
        let password = config.substring_char(i + 1, n);
        assert(ssid@ =~= config@.take(i as int));
        assert(password@ =~= config@.skip(i + 1));
        (ssid, Some(password))
    }
}

/// A line of `iwctl device list` that names no device: blank, the header, or a rule.
pub open spec fn skipped_line(t: Seq<char>) -> bool {
    t.len() == 0 || starts_with_text(t, "Device"@) || t[0] == '-'
}

/// The first word of the first line, trimmed, that names a device.
pub open spec fn device_in(lines: Seq<Seq<char>>) -> Option<Seq<char>>
    decreases lines.len(),
{
    if lines.len() == 0 {
        None
    } else {
        let t = trim_text(lines[0]);
        if skipped_line(t) {
            device_in(lines.skip(1))
        } else {
            Some(t.take(first_white(t) as int))
        }
    }
}

/// The wireless device named first in the output of `iwctl device list`. The
/// lines are taken between newlines; a trailing carriage return or a final
/// empty line is whitespace that trimming removes, so they change nothing.
pub open spec fn wireless_device_of(output: Seq<char>) -> Option<Seq<char>> {
    device_in(split_text(output, '\n'))
}

/// Finds the first wireless device in the output of `iwctl device list`.
pub fn get_first_wireless_device(output: &str) -> (r: Option<String>)
    ensures
        match wireless_device_of(output@) {
            None => r is None,
            Some(d) => r matches Some(s) && s@ == d,
        },
{
    let lines = split_on(output, '\n');
    let ghost all = lines@.map_values(|p: String| p@);
    let mut i: usize = 0;
    assert(all.skip(0) =~= all);
    while i < lines.len()
        invariant
            i <= lines.len(),
            all == lines@.map_values(|p: String| p@),
            all == split_text(output@, '\n'),
            device_in(all.skip(i as int)) == wireless_device_of(output@),
        decreases lines.len() - i,
    {
        let t = trim(lines[i].as_str());
        assert(all.skip(i as int)[0] == lines[i as int]@);
        assert(all.skip(i as int).skip(1) =~= all.skip(i + 1));
        let n = t.unicode_len();
        if !(n == 0 || starts_with(t, "Device") || t.get_char(0) == '-') {
            let w = first_word(t);
            return Some(String::from_str(w));
        }
        i = i + 1;
    }
    None
}

/// Message for an SSID that is empty or only whitespace.
pub open spec fn empty_ssid_message() -> Seq<char> {
    "SSID cannot be empty"@
}

/// Message when the wireless tool is not installed.
pub open spec fn missing_tool_message() -> Seq<char> {
    "iwctl not found - ensure iwd is installed"@
}

/// Message when no wireless device is listed.
pub open spec fn no_device_message() -> Seq<char> {
    "No wireless device found"@
}

/// What a wifi run is for.
pub enum WifiGoal {
    /// List the networks in range.
    List,
    /// Join the network `ssid`, giving `password` on the tool's input if there is one.
    Connect { ssid: String, password: Option<String> },
}

/// A wifi goal as mathematical values.
pub ghost enum GoalView {
    List,
    Connect(Seq<char>, Option<Seq<char>>),
}

impl View for WifiGoal {
    type V = GoalView;

    open spec fn view(&self) -> GoalView {
        match self {
            WifiGoal::List => GoalView::List,
            WifiGoal::Connect { ssid, password } => GoalView::Connect(
                ssid@,
                match password {
                    Some(p) => Some(p@),
                    None => None,
                },
            ),
        }
    }
}

/// Where a wifi run stands.
pub enum WifiStage {
    /// The wireless tool must be looked up.
    CheckTool,
    /// The wireless devices must be listed.
    ListDevices,
    /// A scan must be triggered on the device; its outcome does not matter.
    Scan(String),
    /// The goal's own call must be made on the device.
    Final(String),
    /// The run is over, with this result.
    Over(CommandResult<String>),
}

/// A wifi stage as mathematical values.
pub ghost enum StageView {
    CheckTool,
    ListDevices,
    Scan(Seq<char>),
    Final(Seq<char>),
    Over(Result<Seq<char>, ErrorView>),
}

impl View for WifiStage {
    type V = StageView;

    open spec fn view(&self) -> StageView {
        match self {
            WifiStage::CheckTool => StageView::CheckTool,
            WifiStage::ListDevices => StageView::ListDevices,
            WifiStage::Scan(d) => StageView::Scan(d@),
            WifiStage::Final(d) => StageView::Final(d@),
            WifiStage::Over(r) => StageView::Over(
                match r {
                    Ok(s) => Ok(s@),
                    Err(e) => Err(e@),
                },
            ),
        }
    }
}

/// What a wifi run asks of its caller.
pub enum WifiRequest {
    /// Report whether this program can be found on the search path.
    CheckTool(String),
    /// Run this program, writing the text, if any, to its input; report the outcome.
    Run(Invocation, Option<String>),
    /// Nothing more: take the result.
    Done,
}

/// A wifi request as mathematical values.
pub ghost enum RequestView {
    CheckTool(Seq<char>),
    Run(StepView, Option<Seq<char>>),
    Done,
}

impl View for WifiRequest {
    type V = RequestView;

    open spec fn view(&self) -> RequestView {
        match self {
            WifiRequest::CheckTool(p) => RequestView::CheckTool(p@),
            WifiRequest::Run(inv, input) => RequestView::Run(
                inv@,
                match input {
                    Some(t) => Some(t@),
                    None => None,
                },
            ),
            WifiRequest::Done => RequestView::Done,
        }
    }
}

/// An `iwctl station` call on `device`.
pub open spec fn station(device: Seq<char>, rest: Seq<Seq<char>>) -> StepView {
    StepView::Run("iwctl"@, seq!["station"@, device] + rest)
}

/// What a wifi run with goal `g` asks for at stage `s`.
pub open spec fn request_of(g: GoalView, s: StageView) -> RequestView {
    match s {
        StageView::CheckTool => RequestView::CheckTool("iwctl"@),
        StageView::ListDevices => RequestView::Run(
            StepView::Run("iwctl"@, seq!["device"@, "list"@]),
            None,
        ),
        StageView::Scan(d) => RequestView::Run(station(d, seq!["scan"@]), None),
        StageView::Final(d) => match g {
            GoalView::List => RequestView::Run(station(d, seq!["get-networks"@]), None),
            GoalView::Connect(ssid, password) => RequestView::Run(
                station(d, seq!["connect"@, ssid]),
                password,
            ),
        },
        StageView::Over(_) => RequestView::Done,
    }
}

/// The stage after the tool lookup answered `found`.
pub open spec fn after_check(found: bool) -> StageView {
    if found {
        StageView::ListDevices
    } else {
        StageView::Over(Err(ErrorView::System(missing_tool_message())))
    }
}

/// The stage after the call asked for at stage `s` ended with `outcome`.
pub open spec fn after_run(s: StageView, outcome: Result<Seq<char>, ErrorView>) -> StageView {
    match s {
        StageView::ListDevices => match outcome {
            Err(e) => StageView::Over(Err(e)),
            Ok(out) => match wireless_device_of(out) {
                Some(d) => StageView::Scan(d),
                None => StageView::Over(Err(ErrorView::System(no_device_message()))),
            },
        },
        StageView::Scan(d) => StageView::Final(d),
        StageView::Final(_) => StageView::Over(outcome),
        _ => s,
    }
}

/// A command outcome as mathematical values.
pub open spec fn outcome_view(r: CommandResult<String>) -> Result<Seq<char>, ErrorView> {
    match r {
        Ok(s) => Ok(s@),
        Err(e) => Err(e@),
    }
}

/// A wifi run: look up the wireless tool, find the first device, trigger a
/// scan on it, then list networks or join one.
pub struct WifiSession {
    pub goal: WifiGoal,
    pub stage: WifiStage,
}

fn station_call(device: &String, rest: Vec<String>) -> (r: Invocation)
    ensures
        r@ == station(device@, rest@.map_values(|a: String| a@)),
{
    let mut args: Vec<String> = Vec::new();
    args.push(owned("station"));
    args.push(device.clone());
    let mut i: usize = 0;
    while i < rest.len()
        invariant
            i <= rest.len(),
            args@.map_values(|a: String| a@) =~= seq!["station"@, device@] + rest@.map_values(
                |a: String| a@,
            ).take(i as int),
        decreases rest.len() - i,
    {
        let ghost before = args@;
        args.push(rest[i].clone());
        assert(args@.map_values(|a: String| a@) =~= before.map_values(|a: String| a@).push(
            rest@[i as int]@,
        ));
        assert(rest@.map_values(|a: String| a@).take(i + 1) =~= rest@.map_values(
            |a: String| a@,
        ).take(i as int).push(rest@[i as int]@));
        i = i + 1;
    }
    assert(rest@.map_values(|a: String| a@).take(rest.len() as int) =~= rest@.map_values(
        |a: String| a@,
    ));
    Invocation { program: owned("iwctl"), args }
}

impl WifiSession {
    /// What the run asks for next.
    pub fn request(&self) -> (r: WifiRequest)
        ensures
            r@ == request_of(self.goal@, self.stage@),
    {
        match &self.stage {
            WifiStage::CheckTool => WifiRequest::CheckTool(owned("iwctl")),
            WifiStage::ListDevices => {
                let mut args: Vec<String> = Vec::new();
                args.push(owned("device"));
                args.push(owned("list"));
                assert(args@.map_values(|a: String| a@) =~= seq!["device"@, "list"@]);
                WifiRequest::Run(Invocation { program: owned("iwctl"), args }, None)
            },
            WifiStage::Scan(d) => {
                let mut rest: Vec<String> = Vec::new();
                rest.push(owned("scan"));
                assert(rest@.map_values(|a: String| a@) =~= seq!["scan"@]);
                WifiRequest::Run(station_call(d, rest), None)
            },
            WifiStage::Final(d) => match &self.goal {
                WifiGoal::List => {
                    let mut rest: Vec<String> = Vec::new();
                    rest.push(owned("get-networks"));
                    assert(rest@.map_values(|a: String| a@) =~= seq!["get-networks"@]);
                    WifiRequest::Run(station_call(d, rest), None)
                },
                WifiGoal::Connect { ssid, password } => {
                    let mut rest: Vec<String> = Vec::new();
                    rest.push(owned("connect"));
                    rest.push(ssid.clone());
                    assert(rest@.map_values(|a: String| a@) =~= seq!["connect"@, ssid@]);
                    let input = match password {
                        Some(p) => Some(p.clone()),
                        None => None,
                    };
                    WifiRequest::Run(station_call(d, rest), input)
                },
            },
            WifiStage::Over(_) => WifiRequest::Done,
        }
    }

    /// Records whether the wireless tool was found.
    pub fn tool_checked(&mut self, found: bool)
        requires
            old(self).stage@ is CheckTool,
        ensures
            final(self).goal@ == old(self).goal@,
            final(self).stage@ == after_check(found),
    {
        if found {
            self.stage = WifiStage::ListDevices;
        } else {
            self.stage =
            WifiStage::Over(
                Err(SetupError::System(owned("iwctl not found - ensure iwd is installed"))),
            );
        }
    }

    /// Records the outcome of the call the run asked for.
    pub fn ran(&mut self, outcome: CommandResult<String>)
        requires
            old(self).stage@ is ListDevices || old(self).stage@ is Scan || old(self).stage@ is Final,
        ensures
            final(self).goal@ == old(self).goal@,
            final(self).stage@ == after_run(old(self).stage@, outcome_view(outcome)),
    {
        let next = match &self.stage {
            WifiStage::ListDevices => match outcome {
                Err(e) => WifiStage::Over(Err(e)),
                Ok(out) => match get_first_wireless_device(out.as_str()) {
                    Some(d) => WifiStage::Scan(d),
                    None => WifiStage::Over(
                        Err(SetupError::System(owned("No wireless device found"))),
                    ),
                },
            },
            WifiStage::Scan(d) => WifiStage::Final(d.clone()),
            _ => WifiStage::Over(outcome),
        };
        self.stage = next;
    }

    /// The result of a run that asks for nothing more.
    pub fn into_result(self) -> (r: CommandResult<String>)
        requires
            self.stage@ is Over,
        ensures
            outcome_view(r) == self.stage@->Over_0,
    {
        match self.stage {
            WifiStage::Over(r) => r,
            _ => unreached(),
        }
    }
}

/// A run that lists the wireless networks in range.
pub fn list_networks() -> (r: WifiSession)
    ensures
        r.goal@ == GoalView::List,
        r.stage@ == StageView::CheckTool,
{
    WifiSession { goal: WifiGoal::List, stage: WifiStage::CheckTool }
}

/// A run that joins network `ssid`; refused at once when the SSID is empty or
/// only whitespace.
pub fn connect_network(ssid: &str, password: Option<&str>) -> (r: CommandResult<WifiSession>)
    ensures
        trim_text(ssid@).len() == 0 ==> err_view(r) == Some(
            ErrorView::InvalidInput(empty_ssid_message()),
        ),
        trim_text(ssid@).len() > 0 ==> (r matches Ok(s) && s.stage@ == StageView::CheckTool
            && s.goal@ == GoalView::Connect(
            ssid@,
            match password {
                Some(p) => Some(p@),
                None => None,
            },
        )),
{
    if trim(ssid).unicode_len() == 0 {
        return Err(SetupError::InvalidInput(owned("SSID cannot be empty")));
    }
    let password = match password {
        Some(p) => Some(owned(p)),
        None => None,
    };
    Ok(WifiSession { goal: WifiGoal::Connect { ssid: owned(ssid), password }, stage: WifiStage::CheckTool })
}

} // verus!
