use vstd::prelude::*;
use crate::input::action::GameAction;
use crate::input::state::InputState;

verus! {

/// One thing the client does during a frame, in response to the input of
/// that frame.
#[derive(Clone, Copy, PartialEq, Eq, Debug, Structural)]
pub enum FrameStep {
    /// Open the chat window.
    OpenChat,
    /// Close the chat window.
    CloseChat,
    /// Capture the mouse (and grab the cursor).
    CaptureMouse,
    /// Release the mouse (and show the cursor).
    ReleaseMouse,
    /// Run the player systems (input, jump, physics, camera, network update).
    RunWorldSystems,
    /// Break the block under the crosshair.
    BreakBlock,
    /// Place the selected block against the block under the crosshair.
    PlaceBlock,
    /// Select the block under the crosshair.
    PickBlock,
    /// Select the next block type.
    NextBlock,
    /// Select the previous block type.
    PreviousBlock,
    /// Show or hide the debug overlay.
    ToggleDebugUi,
    /// Switch flying on or off.
    ToggleFly,
    /// Cycle the chunk-border display.
    ToggleChunkBorders,
    /// Open or close the settings menu.
    ToggleSettings,
    /// Switch to the next game mode.
    CycleGameMode,
    /// Recompute the highlighted block.
    UpdateHighlight,
}

/// The step, when the condition holds; nothing otherwise.
pub open spec fn step_if(c: bool, s: FrameStep) -> Seq<FrameStep> {
    if c {
        seq![s]
    } else {
        Seq::empty()
    }
}

/// Whether the step changes the world's blocks.
pub open spec fn edits_world(s: FrameStep) -> bool {
    s == FrameStep::BreakBlock || s == FrameStep::PlaceBlock || s == FrameStep::PickBlock
}

/// Whether the chat opens this frame: asked for, and neither open now nor
/// open in the previous frame.
pub open spec fn opens_chat(jp: Set<GameAction>, chat_open: bool, was_chat_open: bool) -> bool {
    jp.contains(GameAction::OpenChat) && !chat_open && !was_chat_open
}

/// The steps taken before the one-shot actions: opening or closing the chat
/// (and with it the mouse), and the world systems, which run unless the chat
/// (as it is after those steps) or the settings are open.
pub open spec fn chat_steps(jp: Set<GameAction>, captured: bool, chat_open: bool, settings_open: bool, was_chat_open: bool) -> Seq<FrameStep> {
    let open = opens_chat(jp, chat_open, was_chat_open);
    let close = chat_open && jp.contains(GameAction::ReleaseMouse);
    let chat_after = chat_open_after(jp, chat_open, was_chat_open);
    step_if(open, FrameStep::OpenChat)
        + step_if(open && captured, FrameStep::ReleaseMouse)
        + step_if(close, FrameStep::CloseChat)
        + step_if(was_chat_open && !chat_open, FrameStep::CaptureMouse)
        + step_if(!chat_after && !settings_open, FrameStep::RunWorldSystems)
}

/// Whether the chat is open once it has been opened or closed this frame.
pub open spec fn chat_open_after(jp: Set<GameAction>, chat_open: bool, was_chat_open: bool) -> bool {
    if opens_chat(jp, chat_open, was_chat_open) {
        true
    } else if chat_open && jp.contains(GameAction::ReleaseMouse) {
        false
    } else {
        chat_open
    }
}

/// Whether the mouse is captured once the chat steps are done.
pub open spec fn captured_after_chat(jp: Set<GameAction>, captured: bool, chat_open: bool, was_chat_open: bool) -> bool {
    if was_chat_open && !chat_open {
        true
    } else if opens_chat(jp, chat_open, was_chat_open) {
        false
    } else {
        captured
    }
}

/// The one-shot actions appended to `prefix`, taken only when neither the
/// chat nor the settings were open at the start of the frame. `c` is whether
/// the mouse is captured before them. Block edits need a captured mouse (as
/// it is after the mouse toggles of this frame); the settings menu releases
/// the mouse when it opens.
pub open spec fn with_action_steps(prefix: Seq<FrameStep>, jp: Set<GameAction>, c: bool) -> Seq<FrameStep> {
    let toggled = jp.contains(GameAction::ToggleMouseCapture);
    let c1 = if toggled { !c } else { c };
    let released = jp.contains(GameAction::ReleaseMouse);
    let c2 = if released { false } else { c1 };
    let settings = jp.contains(GameAction::OpenSettings);
    prefix
        + step_if(toggled, if c1 { FrameStep::CaptureMouse } else { FrameStep::ReleaseMouse })
        + step_if(released, FrameStep::ReleaseMouse)
        + step_if(jp.contains(GameAction::BreakBlock) && c2, FrameStep::BreakBlock)
        + step_if(jp.contains(GameAction::PlaceBlock) && c2, FrameStep::PlaceBlock)
        + step_if(jp.contains(GameAction::PickBlock) && c2, FrameStep::PickBlock)
        + step_if(jp.contains(GameAction::NextBlockType), FrameStep::NextBlock)
        + step_if(jp.contains(GameAction::PreviousBlockType), FrameStep::PreviousBlock)
        + step_if(jp.contains(GameAction::ToggleDebugUI), FrameStep::ToggleDebugUi)
        + step_if(jp.contains(GameAction::ToggleFly), FrameStep::ToggleFly)
        + step_if(jp.contains(GameAction::ToggleChunkBorders), FrameStep::ToggleChunkBorders)
        + step_if(settings, FrameStep::ToggleSettings)
        + step_if(settings && c2, FrameStep::ReleaseMouse)
        + step_if(jp.contains(GameAction::CycleGameMode), FrameStep::CycleGameMode)
        + seq![FrameStep::UpdateHighlight]
}

/// All the steps of a frame: `jp` is what was just pressed, `captured`
/// whether the mouse is captured, and the flags say whether the chat and the
/// settings are open and whether the chat was open in the previous frame.
pub open spec fn frame_steps(jp: Set<GameAction>, captured: bool, chat_open: bool, settings_open: bool, was_chat_open: bool) -> Seq<FrameStep> {
    let head = chat_steps(jp, captured, chat_open, settings_open, was_chat_open);
    if chat_open || settings_open {
        head
    } else {
        with_action_steps(head, jp, captured_after_chat(jp, captured, chat_open, was_chat_open))
    }
}

/// Every step of the sequence satisfies `p`.
pub open spec fn all_steps(s: Seq<FrameStep>, p: spec_fn(FrameStep) -> bool) -> bool {
    forall|i: int| 0 <= i < s.len() ==> p(#[trigger] s[i])
}

proof fn lemma_all_concat(a: Seq<FrameStep>, b: Seq<FrameStep>, p: spec_fn(FrameStep) -> bool)
    requires
        all_steps(a, p),
        all_steps(b, p),
    ensures
        all_steps(a + b, p),
{
    assert forall|i: int| 0 <= i < (a + b).len() implies p(#[trigger] (a + b)[i]) by {
        if i < a.len() {
            assert((a + b)[i] == a[i]);
        } else {
            assert((a + b)[i] == b[i - a.len()]);
        }
    }
}

proof fn lemma_step_if(c: bool, s: FrameStep, p: spec_fn(FrameStep) -> bool)
    requires
        c ==> p(s),
    ensures
        all_steps(step_if(c, s), p),
{
}

proof fn lemma_chat_steps(jp: Set<GameAction>, captured: bool, chat_open: bool, settings_open: bool, was_chat_open: bool, p: spec_fn(FrameStep) -> bool)
    requires
        p(FrameStep::OpenChat),
        p(FrameStep::CloseChat),
        p(FrameStep::CaptureMouse),
        p(FrameStep::ReleaseMouse),
        !chat_open_after(jp, chat_open, was_chat_open) && !settings_open ==> p(FrameStep::RunWorldSystems),
    ensures
        all_steps(chat_steps(jp, captured, chat_open, settings_open, was_chat_open), p),
{
    let open = opens_chat(jp, chat_open, was_chat_open);
    let close = chat_open && jp.contains(GameAction::ReleaseMouse);
    let chat_after = chat_open_after(jp, chat_open, was_chat_open);
    let a = step_if(open, FrameStep::OpenChat);
    let b = step_if(open && captured, FrameStep::ReleaseMouse);
    let c = step_if(close, FrameStep::CloseChat);
    let d = step_if(was_chat_open && !chat_open, FrameStep::CaptureMouse);
    let e = step_if(!chat_after && !settings_open, FrameStep::RunWorldSystems);
    lemma_step_if(open, FrameStep::OpenChat, p);
    lemma_step_if(open && captured, FrameStep::ReleaseMouse, p);
    lemma_step_if(close, FrameStep::CloseChat, p);
    lemma_step_if(was_chat_open && !chat_open, FrameStep::CaptureMouse, p);
    lemma_step_if(!chat_after && !settings_open, FrameStep::RunWorldSystems, p);
    lemma_all_concat(a, b, p);
    lemma_all_concat(a + b, c, p);
    lemma_all_concat(a + b + c, d, p);
    lemma_all_concat(a + b + c + d, e, p);
}

proof fn lemma_action_steps(prefix: Seq<FrameStep>, jp: Set<GameAction>, c: bool, p: spec_fn(FrameStep) -> bool)
    requires
        all_steps(prefix, p),
        p(FrameStep::CaptureMouse),
        p(FrameStep::ReleaseMouse),
        p(FrameStep::NextBlock),
        p(FrameStep::PreviousBlock),
        p(FrameStep::ToggleDebugUi),
        p(FrameStep::ToggleFly),
        p(FrameStep::ToggleChunkBorders),
        p(FrameStep::ToggleSettings),
        p(FrameStep::CycleGameMode),
        p(FrameStep::UpdateHighlight),
        ({
            let c1 = if jp.contains(GameAction::ToggleMouseCapture) { !c } else { c };
            let c2 = if jp.contains(GameAction::ReleaseMouse) { false } else { c1 };
            c2 ==> p(FrameStep::BreakBlock) && p(FrameStep::PlaceBlock) && p(FrameStep::PickBlock)
        }),
    ensures
        all_steps(with_action_steps(prefix, jp, c), p),
{
    let toggled = jp.contains(GameAction::ToggleMouseCapture);
    let c1 = if toggled { !c } else { c };
    let released = jp.contains(GameAction::ReleaseMouse);
    let c2 = if released { false } else { c1 };
    let settings = jp.contains(GameAction::OpenSettings);
    let s0 = prefix;
    let s1 = s0 + step_if(toggled, if c1 { FrameStep::CaptureMouse } else { FrameStep::ReleaseMouse });
    lemma_step_if(toggled, if c1 { FrameStep::CaptureMouse } else { FrameStep::ReleaseMouse }, p);
    lemma_all_concat(s0, step_if(toggled, if c1 { FrameStep::CaptureMouse } else { FrameStep::ReleaseMouse }), p);
    let s2 = s1 + step_if(released, FrameStep::ReleaseMouse);
    lemma_step_if(released, FrameStep::ReleaseMouse, p);
    lemma_all_concat(s1, step_if(released, FrameStep::ReleaseMouse), p);
    let s3 = s2 + step_if(jp.contains(GameAction::BreakBlock) && c2, FrameStep::BreakBlock);
    lemma_step_if(jp.contains(GameAction::BreakBlock) && c2, FrameStep::BreakBlock, p);
    lemma_all_concat(s2, step_if(jp.contains(GameAction::BreakBlock) && c2, FrameStep::BreakBlock), p);
    let s4 = s3 + step_if(jp.contains(GameAction::PlaceBlock) && c2, FrameStep::PlaceBlock);
    lemma_step_if(jp.contains(GameAction::PlaceBlock) && c2, FrameStep::PlaceBlock, p);
    lemma_all_concat(s3, step_if(jp.contains(GameAction::PlaceBlock) && c2, FrameStep::PlaceBlock), p);
    let s5 = s4 + step_if(jp.contains(GameAction::PickBlock) && c2, FrameStep::PickBlock);
    lemma_step_if(jp.contains(GameAction::PickBlock) && c2, FrameStep::PickBlock, p);
    lemma_all_concat(s4, step_if(jp.contains(GameAction::PickBlock) && c2, FrameStep::PickBlock), p);
    let s6 = s5 + step_if(jp.contains(GameAction::NextBlockType), FrameStep::NextBlock);
    lemma_step_if(jp.contains(GameAction::NextBlockType), FrameStep::NextBlock, p);
    lemma_all_concat(s5, step_if(jp.contains(GameAction::NextBlockType), FrameStep::NextBlock), p);
    let s7 = s6 + step_if(jp.contains(GameAction::PreviousBlockType), FrameStep::PreviousBlock);
    lemma_step_if(jp.contains(GameAction::PreviousBlockType), FrameStep::PreviousBlock, p);
    lemma_all_concat(s6, step_if(jp.contains(GameAction::PreviousBlockType), FrameStep::PreviousBlock), p);
    let s8 = s7 + step_if(jp.contains(GameAction::ToggleDebugUI), FrameStep::ToggleDebugUi);
    lemma_step_if(jp.contains(GameAction::ToggleDebugUI), FrameStep::ToggleDebugUi, p);
    lemma_all_concat(s7, step_if(jp.contains(GameAction::ToggleDebugUI), FrameStep::ToggleDebugUi), p);
    let s9 = s8 + step_if(jp.contains(GameAction::ToggleFly), FrameStep::ToggleFly);
    lemma_step_if(jp.contains(GameAction::ToggleFly), FrameStep::ToggleFly, p);
    lemma_all_concat(s8, step_if(jp.contains(GameAction::ToggleFly), FrameStep::ToggleFly), p);
    let s10 = s9 + step_if(jp.contains(GameAction::ToggleChunkBorders), FrameStep::ToggleChunkBorders);
    lemma_step_if(jp.contains(GameAction::ToggleChunkBorders), FrameStep::ToggleChunkBorders, p);
    lemma_all_concat(s9, step_if(jp.contains(GameAction::ToggleChunkBorders), FrameStep::ToggleChunkBorders), p);
    let s11 = s10 + step_if(settings, FrameStep::ToggleSettings);
    lemma_step_if(settings, FrameStep::ToggleSettings, p);
    lemma_all_concat(s10, step_if(settings, FrameStep::ToggleSettings), p);
    let s12 = s11 + step_if(settings && c2, FrameStep::ReleaseMouse);
    lemma_step_if(settings && c2, FrameStep::ReleaseMouse, p);
    lemma_all_concat(s11, step_if(settings && c2, FrameStep::ReleaseMouse), p);
    let s13 = s12 + step_if(jp.contains(GameAction::CycleGameMode), FrameStep::CycleGameMode);
    lemma_step_if(jp.contains(GameAction::CycleGameMode), FrameStep::CycleGameMode, p);
    lemma_all_concat(s12, step_if(jp.contains(GameAction::CycleGameMode), FrameStep::CycleGameMode), p);
    lemma_all_concat(s13, seq![FrameStep::UpdateHighlight], p);
}

fn push_if(steps: &mut Vec<FrameStep>, c: bool, s: FrameStep)
    ensures
        final(steps)@ == old(steps)@ + step_if(c, s),
{
    if c {
        steps.push(s);
    }
    proof {
        assert(final(steps)@ =~= old(steps)@ + step_if(c, s));
    }
}

fn plan_chat_steps(steps: &mut Vec<FrameStep>, input: &InputState, chat_open: bool, settings_open: bool, was_chat_open: bool) -> (captured: bool)
    requires
        input.wf(),
        old(steps)@.len() == 0,
    ensures
        final(steps)@ == chat_steps(input@.1, input@.3, chat_open, settings_open, was_chat_open),
        captured == captured_after_chat(input@.1, input@.3, chat_open, was_chat_open),
{
    let mut captured = input.is_mouse_captured();
    let open = input.just_pressed(GameAction::OpenChat) && !chat_open && !was_chat_open;
    let close = chat_open && input.just_pressed(GameAction::ReleaseMouse);
    let chat_after = if open { true } else if close { false } else { chat_open };
    push_if(steps, open, FrameStep::OpenChat);
    assert(steps@ =~= step_if(open, FrameStep::OpenChat));
    push_if(steps, open && captured, FrameStep::ReleaseMouse);
    if open {
        captured = false;
    }
    push_if(steps, close, FrameStep::CloseChat);
    let recapture = was_chat_open && !chat_open;
    push_if(steps, recapture, FrameStep::CaptureMouse);
    if recapture {
        captured = true;
    }
    push_if(steps, !chat_after && !settings_open, FrameStep::RunWorldSystems);
    captured
}

fn plan_action_steps(steps: &mut Vec<FrameStep>, input: &InputState, c: bool)
    requires
        input.wf(),
    ensures
        final(steps)@ == with_action_steps(old(steps)@, input@.1, c),
{
    let mut captured = c;
    let toggled = input.just_pressed(GameAction::ToggleMouseCapture);
    if toggled {
        captured = !captured;
    }
    push_if(steps, toggled, if captured { FrameStep::CaptureMouse } else { FrameStep::ReleaseMouse });
    let released = input.just_pressed(GameAction::ReleaseMouse);
    push_if(steps, released, FrameStep::ReleaseMouse);
    if released {
        captured = false;
    }
    push_if(steps, input.just_pressed(GameAction::BreakBlock) && captured, FrameStep::BreakBlock);
    push_if(steps, input.just_pressed(GameAction::PlaceBlock) && captured, FrameStep::PlaceBlock);
    push_if(steps, input.just_pressed(GameAction::PickBlock) && captured, FrameStep::PickBlock);
    push_if(steps, input.just_pressed(GameAction::NextBlockType), FrameStep::NextBlock);
    push_if(steps, input.just_pressed(GameAction::PreviousBlockType), FrameStep::PreviousBlock);
    push_if(steps, input.just_pressed(GameAction::ToggleDebugUI), FrameStep::ToggleDebugUi);
    push_if(steps, input.just_pressed(GameAction::ToggleFly), FrameStep::ToggleFly);
    push_if(steps, input.just_pressed(GameAction::ToggleChunkBorders), FrameStep::ToggleChunkBorders);
    let settings = input.just_pressed(GameAction::OpenSettings);
    push_if(steps, settings, FrameStep::ToggleSettings);
    push_if(steps, settings && captured, FrameStep::ReleaseMouse);
    push_if(steps, input.just_pressed(GameAction::CycleGameMode), FrameStep::CycleGameMode);
    steps.push(FrameStep::UpdateHighlight);
}

/// Decides what the client does in a frame from the input of the frame, in
/// the order it does it (see `frame_steps`). The caller performs each step;
/// `CaptureMouse` and `ReleaseMouse` also set the input state's capture flag.
pub fn plan_frame(input: &InputState, chat_open: bool, settings_open: bool, was_chat_open: bool) -> (steps: Vec<FrameStep>)
    requires
        input.wf(),
    ensures
        steps@ == frame_steps(input@.1, input@.3, chat_open, settings_open, was_chat_open),
{
    let mut steps: Vec<FrameStep> = Vec::new();
    let captured = plan_chat_steps(&mut steps, input, chat_open, settings_open, was_chat_open);
    if !(chat_open || settings_open) {
        plan_action_steps(&mut steps, input, captured);
    }
    steps
}

/// While the chat or the settings were open at the start of a frame, the
/// frame edits no block and takes no one-shot action: its only steps are
/// the chat and mouse steps and the world systems.
pub proof fn law_ui_blocks_actions(jp: Set<GameAction>, captured: bool, chat_open: bool, settings_open: bool, was_chat_open: bool)
    requires
        chat_open || settings_open,
    ensures
        forall|i: int| 0 <= i < frame_steps(jp, captured, chat_open, settings_open, was_chat_open).len() ==> {
            let s = #[trigger] frame_steps(jp, captured, chat_open, settings_open, was_chat_open)[i];
            s == FrameStep::OpenChat || s == FrameStep::CloseChat || s == FrameStep::CaptureMouse
                || s == FrameStep::ReleaseMouse || s == FrameStep::RunWorldSystems
        },
{
    let p = |s: FrameStep| s == FrameStep::OpenChat || s == FrameStep::CloseChat || s == FrameStep::CaptureMouse
        || s == FrameStep::ReleaseMouse || s == FrameStep::RunWorldSystems;
    lemma_chat_steps(jp, captured, chat_open, settings_open, was_chat_open, p);
}

/// A frame that opens the chat does not run the world systems, and leaves
/// the mouse released after its chat steps.
pub proof fn law_opening_chat_stops_the_world(jp: Set<GameAction>, captured: bool, settings_open: bool)
    requires
        jp.contains(GameAction::OpenChat),
    ensures
        frame_steps(jp, captured, false, settings_open, false)[0] == FrameStep::OpenChat,
        forall|i: int| 0 <= i < frame_steps(jp, captured, false, settings_open, false).len()
            ==> #[trigger] frame_steps(jp, captured, false, settings_open, false)[i] != FrameStep::RunWorldSystems,
        !captured_after_chat(jp, captured, false, false),
{
    let p = |s: FrameStep| s != FrameStep::RunWorldSystems;
    let head = chat_steps(jp, captured, false, settings_open, false);
    lemma_chat_steps(jp, captured, false, settings_open, false, p);
    assert(head[0] == FrameStep::OpenChat);
    if !settings_open {
        lemma_action_steps(head, jp, false, p);
        assert(with_action_steps(head, jp, false)[0] == head[0]);
    }
}

/// A frame edits blocks only if the mouse is captured by the time of the
/// edit: with the mouse released and no capture asked for (and the chat not
/// just closed), no block is broken, placed or picked.
pub proof fn law_edits_need_capture(jp: Set<GameAction>, chat_open: bool, settings_open: bool, was_chat_open: bool)
    requires
        !jp.contains(GameAction::ToggleMouseCapture),
        !(was_chat_open && !chat_open),
    ensures
        forall|i: int| 0 <= i < frame_steps(jp, false, chat_open, settings_open, was_chat_open).len()
            ==> !edits_world(#[trigger] frame_steps(jp, false, chat_open, settings_open, was_chat_open)[i]),
{
    let p = |s: FrameStep| !edits_world(s);
    let head = chat_steps(jp, false, chat_open, settings_open, was_chat_open);
    lemma_chat_steps(jp, false, chat_open, settings_open, was_chat_open, p);
    if !(chat_open || settings_open) {
        lemma_action_steps(head, jp, captured_after_chat(jp, false, chat_open, was_chat_open), p);
    }
}

} // verus!
