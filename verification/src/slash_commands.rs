//! Slash commands that stand for tools.
use vstd::prelude::*;
use vstd::string::StringExecFns;

verus! {

/// The tool behind the command that updates the goal.
pub const UPDATE_GOAL_TOOL_NAME: &'static str = "qidi_build:UpdateGoal";

/// The tool behind the command that creates a task.
pub const CREATE_TASK_TOOL_NAME: &'static str = "qidi_build:CreateTask";

/// The tool behind the command that completes a task.
pub const COMPLETE_TASK_TOOL_NAME: &'static str = "qidi_build:CompleteTask";

/// The tool that makes images.
pub const IMAGE_GEN_TOOL_NAME: &'static str = "qidi_build:ImageGen";

/// The command that makes images.
pub const IMAGINE_COMMAND_NAME: &'static str = "/imagine";

/// The tool that makes videos of images.
pub const IMAGE_TO_VIDEO_TOOL_NAME: &'static str = "qidi_build:ImageToVideo";

/// The command that makes videos of images.
pub const IMAGINE_VIDEO_COMMAND_NAME: &'static str = "/imagine-video";

/// The tool that schedules prompts.
pub const SCHEDULER_CREATE_TOOL_NAME: &'static str = "qidi_build:SchedulerCreate";

/// The tool behind the command that schedules prompts.
pub const LOOP_SCHEDULE_TOOL_NAME: &'static str = "qidi_build:LoopSchedule";

/// A slash command.
#[derive(Debug, Clone)]
pub struct SlashCommandConfig {
    pub name: String,
    pub description: String,
    pub tool_name: String,
}

impl SlashCommandConfig {
    /// A slash command.
    pub fn new(name: &str, description: &str, tool_name: &str) -> (r: Self)
        ensures
            r.name@ == name@,
            r.description@ == description@,
            r.tool_name@ == tool_name@,
    {
        SlashCommandConfig {
            name: name.to_owned(),
            description: description.to_owned(),
            tool_name: tool_name.to_owned(),
        }
    }
}

/// What `/imagine` does.
pub fn imagine_instruction() -> (r: String)
    ensures
        r@ == "Generate an image from a text description."@,
{
    "Generate an image from a text description.".to_owned()
}

/// How `/imagine` is used.
pub fn imagine_usage_message() -> (r: String)
    ensures
        r@ == "Usage: /imagine <description>"@,
{
    "Usage: /imagine <description>".to_owned()
}

/// What `/imagine-video` does.
pub fn imagine_video_instruction() -> (r: String)
    ensures
        r@ == "Generate a video from an image."@,
{
    "Generate a video from an image.".to_owned()
}

/// How `/imagine-video` is used.
pub fn imagine_video_usage_message() -> (r: String)
    ensures
        r@ == "Usage: /imagine-video <image_url> <description>"@,
{
    "Usage: /imagine-video <image_url> <description>".to_owned()
}

/// How `/loop` is used.
pub fn loop_usage_message() -> (r: String)
    ensures
        r@ == "Usage: /loop <command> <interval>"@,
{
    "Usage: /loop <command> <interval>".to_owned()
}

/// What the model is told before the input of `/loop`.
pub const LOOP_PREAMBLE: &'static str = "\n# /loop -- schedule a recurring prompt\n\nParse the input below into an interval and a prompt, then schedule it with scheduler_create.\n\n## Deriving the interval\nRead how often to run from the user's request -- however they phrase it -- and convert it\nto a compact `<number><unit>` string, where unit is one of `s` (seconds), `m` (minutes),\n`h` (hours), or `d` (days). The interval may appear at the start or end of the request;\nextract it and use the remaining text as the prompt.\n\nThe minimum interval is 60 seconds; shorter values are raised to 60s, so tell the user if that applies.\n\nIf the request contains no interval at all, ask the user how often it should run before\nscheduling. Do NOT invent or assume a default interval.\n\n## Action\n1. Call scheduler_create with: interval (the compact string you derived), prompt,\n   recurring: true, fire_immediately: true. If the interval is unparseable, the tool\n   returns an error -- fix the interval string rather than guessing.\n2. Confirm: what's scheduled, the cadence, that it auto-expires after 7 days,\n   and that they can cancel with scheduler_delete (include the job ID).\n3. Do NOT execute the prompt inline. The scheduler will fire it immediately.\n\n## Input\n";

/// What the model is told for `/loop`: it turns the request into an interval and a prompt
/// itself.
pub fn loop_schedule_instruction(args: &str) -> (r: String)
    ensures
        r@ == LOOP_PREAMBLE@ + args@ + "\n"@,
{
    let mut s: String = LOOP_PREAMBLE.to_owned();
    s.append(args);
    s.append("\n");
    s
}

} // verus!
