//! A scope tab's toolbar: what each of its buttons does, whether it is clicked
//! or pressed as its key.

use vstd::prelude::*;

use super::pane::PaneView;
use super::scope::{ScopeScreen, ScopeView};
use super::screen::{asked_of_kube, kube_action, ActionView, AppAction, Button};
use super::shell::{Focus, Shell, ShellView};
use crate::config::ScopeTab;
use crate::input::InputView;
use crate::kube::{Kind, Request, RequestView, TextKind};
use crate::store::ScopeData;

verus! {

/// What the run loop is asked once a jump has landed: the pods, where it did.
pub open spec fn landed_on(scope: usize, kind: Kind) -> ActionView {
    if kind == Kind::Pods {
        ActionView::Kube(RequestView::Showing(scope, Kind::Pods))
    } else {
        ActionView::Nothing
    }
}

impl ScopeView {
    /// With that in the text pane's filter.
    pub open spec fn with_filter(self, filter: InputView) -> Self {
        ScopeView { pane: PaneView { filter, ..self.pane }, ..self }
    }

    /// One button of the toolbar.
    #[verifier::opaque]
    pub open spec fn pushed(
        self,
        shell: ShellView,
        context: Seq<char>,
        scope: usize,
        data: ScopeData,
        button: Button,
    ) -> (Self, ShellView, ActionView) {
        match button {
            Button::Logs => {
                let then = self.log_toggled();
                (
                    then,
                    shell.focused(
                        if then.pane.open {
                            Focus::Details
                        } else {
                            Focus::Table
                        },
                    ),
                    ActionView::Nothing,
                )
            },
            Button::Describe => {
                let (then, request) = self.with_text_shown(scope, TextKind::Describe, data);
                (then, shell.focused(Focus::Details), asked_of_kube(request))
            },
            Button::Yaml => {
                let (then, request) = self.with_text_shown(scope, TextKind::Yaml, data);
                (then, shell.focused(Focus::Details), asked_of_kube(request))
            },
            Button::Bash => match self.shell_in(context, data) {
                Some(action) => (self, shell, action),
                None => (self, shell.warning("No pod is selected"@), ActionView::Nothing),
            },
            Button::Restart => {
                let (then, shell) = self.restart_asked(shell, data);
                (then, shell, ActionView::Nothing)
            },
            Button::Scale => {
                let (then, shell, request) = self.scale_asked(shell, scope, data);
                (then, shell, asked_of_kube(request))
            },
            Button::Pod => {
                let (then, shell) = self.to_object(shell, data);
                (then, shell.focused(Focus::Table), landed_on(scope, then.kind))
            },
            Button::Value => {
                let (then, request) = self.value_shown(scope, data);
                (then, shell.focused(Focus::Details), asked_of_kube(request))
            },
            Button::Copy => self.value_copied(shell, scope, data),
        }
    }
}

impl ScopeScreen {
    /// One button of the toolbar.
    pub fn push(
        &mut self,
        shell: &mut Shell,
        tab: &ScopeTab,
        scope: usize,
        data: &ScopeData,
        button: Button,
    ) -> (r: AppAction)
        ensures
            (final(self)@, final(shell)@, r@) == old(self)@.pushed(
                old(shell)@,
                tab.scope@.context,
                scope,
                *data,
                button,
            ),
    {
        proof {
            reveal(ScopeView::pushed);
        }
        match button {
            Button::Logs => {
                let open = self.toggle_log();
                shell.set_focus(
                    if open {
                        Focus::Details
                    } else {
                        Focus::Table
                    },
                );
                AppAction::Nothing
            },
            Button::Describe => {
                let request = self.show_text(scope, TextKind::Describe, data);
                shell.set_focus(Focus::Details);
                kube_action(request)
            },
            Button::Yaml => {
                let request = self.show_text(scope, TextKind::Yaml, data);
                shell.set_focus(Focus::Details);
                kube_action(request)
            },
            Button::Bash => match self.bash_target(tab, data) {
                Some(action) => action,
                None => {
                    shell.set_error("No pod is selected");
                    AppAction::Nothing
                },
            },
            Button::Restart => {
                self.restart_prompt(shell, data);
                AppAction::Nothing
            },
            Button::Scale => kube_action(self.scale_prompt(shell, scope, data)),
            Button::Pod => {
                self.jump_to_object(shell, data);
                shell.set_focus(Focus::Table);
                if self.kind == Kind::Pods {
                    AppAction::Kube(Request::Showing(scope, Kind::Pods))
                } else {
                    AppAction::Nothing
                }
            },
            Button::Value => {
                let request = self.show_value(scope, data);
                shell.set_focus(Focus::Details);
                kube_action(request)
            },
            Button::Copy => self.copy_value(shell, scope, data),
        }
    }
}

/// No button changes the cluster: the ones that could ask first.
pub proof fn law_no_button_changes_the_cluster(
    screen: ScopeView,
    shell: ShellView,
    context: Seq<char>,
    scope: usize,
    data: ScopeData,
    button: Button,
)
    ensures
        screen.pushed(shell, context, scope, data, button).2 matches ActionView::Kube(request)
            ==> !request.changes_the_cluster(),
{
    reveal(ScopeView::pushed);
}

} // verus!
