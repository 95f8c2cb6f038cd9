//! The driver session: the shared data, the session engine, and the
//! control-plane entry points, tied together under one start/stop
//! lifecycle.
//!
//! The surrounding program owns the transports: it reads reports and
//! hands them to `process_report`, and it passes decoded control requests
//! to `handle_command`, performing the file write that a save asks for.
use vstd::prelude::*;

use crate::command::{
    handle_command, finish_save, CommandOutcome, ReqCommand, ReqCommandsView, ResCommand,
    ResCommandsView,
};
use crate::actions::InputAction;
use crate::config::config_ok;
use crate::data::REPORT_LEN;
use crate::device::device_ok;
use crate::handler::{process_spec, TabletHandler, TabletStatus};
use crate::store::{config_file_ok, SharedData};

verus! {

/// Errors of starting or stopping the session.
#[derive(PartialEq, Eq, Structural, Clone, Copy, Debug)]
pub enum StoryTabletError {
    NotStarted,
    AlreadyStarted,
}

/// One driver session.
pub struct StoryTablet {
    started: bool,
    shared: SharedData,
    tablet_handler: TabletHandler,
}

/// Validity of a session: its shared data satisfies the load policies.
pub open spec fn story_ok(t: StoryTablet) -> bool {
    &&& config_file_ok(t.spec_shared().spec_config_file())
    &&& device_ok(t.spec_shared().spec_device())
}

impl StoryTablet {
    /// Whether the session was started.
    pub closed spec fn spec_started(&self) -> bool {
        self.started
    }

    /// The shared data of the session.
    pub closed spec fn spec_shared(&self) -> SharedData {
        self.shared
    }

    /// The session engine.
    pub closed spec fn spec_handler(&self) -> TabletHandler {
        self.tablet_handler
    }

    /// A new, not yet started session over the shared data.
    pub fn new(shared: SharedData) -> (r: StoryTablet)
        requires
            config_file_ok(shared.spec_config_file()),
            device_ok(shared.spec_device()),
        ensures
            !r.spec_started(),
            r.spec_shared() == shared,
            !r.spec_handler().running,
            r.spec_handler().status == TabletStatus::NotConnected,
            story_ok(r),
    {
        StoryTablet { started: false, shared, tablet_handler: TabletHandler::new() }
    }

    /// Mark the session started; refused when it already runs.
    pub fn start(&mut self) -> (r: Result<(), StoryTabletError>)
        ensures
            old(self).spec_started() ==> r == Err::<(), StoryTabletError>(
                StoryTabletError::AlreadyStarted,
            ) && *final(self) == *old(self),
            !old(self).spec_started() ==> r == Ok::<(), StoryTabletError>(()) && final(self).spec_started() && final(self).spec_shared() == old(self).spec_shared() && final(self).spec_handler() == old(self).spec_handler(),
    {
        if self.started {
            return Err(StoryTabletError::AlreadyStarted);
        }
        self.started = true;
        Ok(())
    }

    /// Mark the session stopped; refused when it does not run.
    pub fn stop(&mut self) -> (r: Result<(), StoryTabletError>)
        ensures
            !old(self).spec_started() ==> r == Err::<(), StoryTabletError>(
                StoryTabletError::NotStarted,
            ) && *final(self) == *old(self),
            old(self).spec_started() ==> r == Ok::<(), StoryTabletError>(()) && !final(self).spec_started() && final(self).spec_shared() == old(self).spec_shared() && final(self).spec_handler() == old(self).spec_handler(),
    {
        if !self.started {
            return Err(StoryTabletError::NotStarted);
        }
        self.started = false;
        Ok(())
    }

    /// Whether the session was started.
    pub fn started(&self) -> (r: bool)
        ensures
            r == self.spec_started(),
    {
        self.started
    }

    /// The current connection status of the engine.
    pub fn get_status(&self) -> (r: TabletStatus)
        ensures
            r == self.spec_handler().status,
    {
        self.tablet_handler.get_status()
    }

    /// Record the outcome of one discovery and open attempt.
    pub fn on_connect_attempt(&mut self, found: bool, opened: bool) -> (r: Result<
        (),
        crate::handler::TabletError,
    >)
        ensures
            final(self).spec_shared() == old(self).spec_shared(),
            final(self).spec_started() == old(self).spec_started(),
            final(self).spec_handler().running == old(self).spec_handler().running,
            final(self).spec_handler().prev == old(self).spec_handler().prev,
            !found ==> r == Err::<(), crate::handler::TabletError>(
                crate::handler::TabletError::NotFound,
            ) && final(self).spec_handler().status == old(self).spec_handler().status,
            found && !opened ==> r == Err::<(), crate::handler::TabletError>(
                crate::handler::TabletError::InvalidAccess,
            ) && final(self).spec_handler().status == old(self).spec_handler().status,
            found && opened ==> r == Ok::<(), crate::handler::TabletError>(()) && final(self).spec_handler().status == TabletStatus::Connected,
    {
        self.tablet_handler.on_connect_attempt(found, opened)
    }

    /// Record a failed blocking read.
    pub fn on_read_error(&mut self)
        ensures
            final(self).spec_shared() == old(self).spec_shared(),
            final(self).spec_started() == old(self).spec_started(),
            final(self).spec_handler().status == TabletStatus::Error,
            final(self).spec_handler().running == old(self).spec_handler().running,
            final(self).spec_handler().prev == old(self).spec_handler().prev,
    {
        self.tablet_handler.on_read_error()
    }

    /// Run one report through the pipeline against the current
    /// configuration snapshot.
    pub fn process_report(&mut self, buffer: &[u8]) -> (r: Vec<InputAction>)
        requires
            buffer@.len() == REPORT_LEN,
            story_ok(*old(self)),
        ensures
            story_ok(*final(self)),
            final(self).spec_shared() == old(self).spec_shared(),
            final(self).spec_started() == old(self).spec_started(),
            final(self).spec_handler().running == old(self).spec_handler().running,
            final(self).spec_handler().status == old(self).spec_handler().status,
            (final(self).spec_handler().prev, r@) == process_spec(
                old(self).spec_handler().prev,
                buffer@,
                old(self).spec_shared().spec_device().info.init_features[0],
                old(self).spec_shared().spec_config_file().spec_config(),
            ),
    {
        let id: u8 = self.shared.device().report_id();
        let cfg = self.shared.config().duplicate();
        self.tablet_handler.on_data(buffer, id, &cfg)
    }

    /// Handle one decoded control request: the response mirrors the
    /// request id, each command gets its corresponding response variant,
    /// and only `UpdateConfig` changes the live configuration.
    pub fn handle_command(&mut self, req: ReqCommand) -> (r: CommandOutcome)
        requires
            story_ok(*old(self)),
            req.data@ matches ReqCommandsView::UpdateConfig { config } ==> config_ok(config),
        ensures
            story_ok(*final(self)),
            final(self).spec_started() == old(self).spec_started(),
            final(self).spec_handler() == old(self).spec_handler(),
            final(self).spec_shared().spec_device() == old(self).spec_shared().spec_device(),
            final(self).spec_shared().spec_config_file().spec_config()
                == crate::command::command_next_config(
                old(self).spec_shared().spec_config_file().spec_config(),
                req.data@,
            ),
            final(self).spec_shared().spec_config_file().spec_persisted() == old(
                self,
            ).spec_shared().spec_config_file().spec_persisted(),
            match req.data@ {
                ReqCommandsView::GetConfig => r matches CommandOutcome::Done { response }
                    && response@.id == req.id && (response@.data
                    matches ResCommandsView::GetConfig { config } && config
                    == crate::command::get_config_result(
                    old(self).spec_shared().spec_config_file().spec_config(),
                )),
                ReqCommandsView::GetStatus => r matches CommandOutcome::Done { response }
                    && response@.id == req.id && response@.data == (ResCommandsView::GetStatus {
                    status: old(self).spec_handler().status,
                }),
                ReqCommandsView::GetDevice => r matches CommandOutcome::Done { response }
                    && response@.id == req.id && (response@.data
                    matches ResCommandsView::GetDevice { device } && device == old(
                    self,
                ).spec_shared().spec_device()),
                ReqCommandsView::UpdateConfig { config } => r matches CommandOutcome::Done {
                    response,
                } && response@.id == req.id && response@.data == (ResCommandsView::UpdateConfig {
                    updated: true,
                }),
                ReqCommandsView::SaveConfig { force_write } => {
                    if crate::command::save_writes(
                        old(self).spec_shared().spec_config_file().spec_config(),
                        old(self).spec_shared().spec_config_file().spec_persisted(),
                        force_write,
                    ) {
                        r matches CommandOutcome::Save { id, content } && id == req.id && content@
                            == crate::config_codec::ser_config(
                            old(self).spec_shared().spec_config_file().spec_config(),
                        )
                    } else {
                        r matches CommandOutcome::Done { response } && response@.id == req.id
                            && response@.data == (ResCommandsView::SaveConfig {
                            saved: true,
                            file_changed: false,
                        })
                    }
                },
                ReqCommandsView::Stop => r matches CommandOutcome::Stop { response }
                    && response@.id == req.id && response@.data == (ResCommandsView::Stop {
                    stopping: true,
                }),
            },
    {
        handle_command(&mut self.shared, self.tablet_handler.get_status(), req)
    }

    /// Record the outcome of the deferred configuration write and build
    /// the save response: success marks the live configuration persisted
    /// and reports a changed file; failure leaves the store as it was and
    /// reports that nothing was saved.
    pub fn finish_save(&mut self, id: i32, write_ok: bool) -> (r: ResCommand)
        requires
            story_ok(*old(self)),
        ensures
            story_ok(*final(self)),
            final(self).spec_started() == old(self).spec_started(),
            final(self).spec_handler() == old(self).spec_handler(),
            final(self).spec_shared().spec_device() == old(self).spec_shared().spec_device(),
            final(self).spec_shared().spec_config_file().spec_config() == old(
                self,
            ).spec_shared().spec_config_file().spec_config(),
            r@.id == id,
            write_ok ==> final(self).spec_shared().spec_config_file().spec_persisted() == Some(
                old(self).spec_shared().spec_config_file().spec_config(),
            ) && r@.data == (ResCommandsView::SaveConfig { saved: true, file_changed: true }),
            !write_ok ==> final(self).spec_shared().spec_config_file().spec_persisted() == old(
                self,
            ).spec_shared().spec_config_file().spec_persisted() && r@.data
                == (ResCommandsView::SaveConfig { saved: false, file_changed: false }),
    {
        finish_save(&mut self.shared, id, write_ok)
    }
}

} // verus!
