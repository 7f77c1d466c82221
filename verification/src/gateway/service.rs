//! The service that clients and sandboxes call.
use crate::exec_command::ExecSandboxRequest;
use crate::gateway::config::{resolve_gateway, Config};
use crate::gateway::environment::{
    get_sandbox_provider_environment, GetSandboxProviderEnvironment,
};
use crate::gateway::exec::{ExecSandbox, ExecSettings};
use crate::gateway::logs::{GetSandboxLogs, GetSandboxLogsRequest, PushSandboxLogs};
use crate::gateway::model::Provider;
use crate::gateway::policy::{
    GetSandboxPolicy, GetSandboxPolicyStatus, ListSandboxPolicies, ReportPolicyStatus,
    ReportPolicyStatusRequest, UpdateSandboxPolicy, UpdateSandboxPolicyRequest,
};
use crate::gateway::provider::{
    create_provider_record, delete_provider_record, get_provider_record, list_provider_records,
    update_provider_record, CreateProviderRecord, DeleteProviderRecord, GetProviderRecord,
    ListProviderRecords, UpdateProviderRecord,
};
use crate::gateway::sandbox::{
    or_default, with_default, CreateSandbox, CreateSandboxRequest, DeleteSandbox, GetSandbox,
    ListSandboxes,
};
use crate::gateway::session::{CreateSshSession, Gateway, RevokeSshSession};
use crate::gateway::watch::{Watch, WatchSandboxRequest};
use crate::status::{Code, Status};
use std::sync::Arc;
use vstd::prelude::*;

verus! {

/// What the handlers share.
#[derive(Debug)]
pub struct ServerState {
    pub config: Config,
    /// The image of sandboxes that name none.
    pub default_image: String,
    /// The version of the gateway.
    pub version: String,
}

#[derive(Debug, Clone, Copy, PartialEq, Eq, Structural)]
pub enum ServiceStatus {
    Unspecified,
    Healthy,
    Degraded,
    Unhealthy,
}

/// How the gateway fares.
#[derive(Debug)]
pub struct HealthResponse {
    pub status: ServiceStatus,
    pub version: String,
}

/// The gateway's service. Each method takes in a request and gives the flow that answers
/// it.
#[derive(Debug)]
pub struct NavigatorService {
    state: Arc<ServerState>,
}

impl Clone for NavigatorService {
    fn clone(&self) -> (r: Self)
        ensures
            r.shared() == self.shared(),
    {
        NavigatorService { state: self.state.clone() }
    }
}

impl NavigatorService {
    /// What the handlers share.
    pub closed spec fn shared(&self) -> ServerState {
        *self.state
    }

    /// A service over `state`.
    pub fn new(state: Arc<ServerState>) -> (r: Self)
        ensures
            r.shared() == *state,
    {
        NavigatorService { state }
    }

    pub fn health(&self) -> (r: HealthResponse)
        ensures
            r == (HealthResponse {
                status: ServiceStatus::Healthy,
                version: self.shared().version,
            }),
    {
        HealthResponse { status: ServiceStatus::Healthy, version: self.state.version.clone() }
    }

    pub fn create_sandbox(&self, request: CreateSandboxRequest) -> (flow: CreateSandbox)
        ensures
            CreateSandbox::begins(
                request,
                self.shared().config.sandbox_namespace,
                self.shared().default_image,
                flow,
            ),
    {
        CreateSandbox::begin(
            request,
            self.state.config.sandbox_namespace.clone(),
            self.state.default_image.clone(),
        )
    }

    pub fn watch_sandbox(&self, request: WatchSandboxRequest) -> (r: Result<Watch, Status>)
        ensures
            Watch::begins(request, r),
    {
        Watch::begin(request)
    }

    pub fn get_sandbox(&self, name: String) -> (flow: GetSandbox)
        ensures
            GetSandbox::begins(name, flow),
    {
        GetSandbox::begin(name)
    }

    pub fn list_sandboxes(&self, limit: u32, offset: u32) -> (flow: ListSandboxes)
        ensures
            flow == (ListSandboxes::Fetch { limit: or_default(limit, 100), offset }),
    {
        ListSandboxes::begin(limit, offset)
    }

    pub fn delete_sandbox(&self, name: String) -> (flow: DeleteSandbox)
        ensures
            DeleteSandbox::begins(name, flow),
    {
        DeleteSandbox::begin(name)
    }

    pub fn create_provider(&self, provider: Option<Provider>) -> (flow: CreateProviderRecord)
        ensures
            match provider {
                None => flow.failed(Code::InvalidArgument, "provider is required"@),
                Some(provider) => CreateProviderRecord::begins(provider, flow),
            },
    {
        match provider {
            None => CreateProviderRecord::Done(
                Err(Status::new(Code::InvalidArgument, "provider is required")),
            ),
            Some(provider) => create_provider_record(provider),
        }
    }

    pub fn get_provider(&self, name: String) -> (flow: GetProviderRecord)
        ensures
            GetProviderRecord::begins(name, flow),
    {
        get_provider_record(name)
    }

    pub fn list_providers(&self, limit: u32, offset: u32) -> (flow: ListProviderRecords)
        ensures
            flow == (ListProviderRecords::Fetch { limit: or_default(limit, 100), offset }),
    {
        list_provider_records(with_default(limit, 100), offset)
    }

    pub fn update_provider(&self, provider: Option<Provider>) -> (flow: UpdateProviderRecord)
        ensures
            match provider {
                None => flow.failed(Code::InvalidArgument, "provider is required"@),
                Some(provider) => UpdateProviderRecord::begins(provider, flow),
            },
    {
        match provider {
            None => UpdateProviderRecord::Done(
                Err(Status::new(Code::InvalidArgument, "provider is required")),
            ),
            Some(provider) => update_provider_record(provider),
        }
    }

    pub fn delete_provider(&self, name: String) -> (flow: DeleteProviderRecord)
        ensures
            DeleteProviderRecord::begins(name, flow),
    {
        delete_provider_record(name)
    }

    pub fn get_sandbox_policy(&self, sandbox_id: String) -> (flow: GetSandboxPolicy)
        ensures
            flow == (GetSandboxPolicy::FetchSandbox { sandbox_id }),
    {
        GetSandboxPolicy::begin(sandbox_id)
    }

    pub fn get_sandbox_provider_environment(&self, sandbox_id: String) -> (flow:
        GetSandboxProviderEnvironment)
        ensures
            flow == (GetSandboxProviderEnvironment::FetchSandbox { sandbox_id }),
    {
        get_sandbox_provider_environment(sandbox_id)
    }

    pub fn create_ssh_session(&self, sandbox_id: String) -> (flow: CreateSshSession)
        ensures
            ({
                let config = self.shared().config;
                CreateSshSession::begins(
                    sandbox_id,
                    Gateway {
                        host: if config.ssh_gateway_host@.len() == 0 {
                            config.bind_host
                        } else {
                            config.ssh_gateway_host
                        },
                        port: if config.ssh_gateway_port == 0 {
                            config.bind_port
                        } else {
                            config.ssh_gateway_port
                        },
                        connect_path: config.ssh_connect_path,
                    },
                    flow,
                )
            }),
    {
        let (host, port) = resolve_gateway(&self.state.config);
        let connect_path = self.state.config.ssh_connect_path.clone();
        CreateSshSession::begin(sandbox_id, Gateway { host, port, connect_path })
    }

    pub fn exec_sandbox(&self, request: ExecSandboxRequest) -> (flow: ExecSandbox)
        ensures
            ExecSandbox::begins(
                request,
                ExecSettings {
                    namespace: self.shared().config.sandbox_namespace,
                    ssh_port: self.shared().config.sandbox_ssh_port,
                    handshake_secret: self.shared().config.ssh_handshake_secret,
                },
                flow,
            ),
    {
        let settings = ExecSettings {
            namespace: self.state.config.sandbox_namespace.clone(),
            ssh_port: self.state.config.sandbox_ssh_port,
            handshake_secret: self.state.config.ssh_handshake_secret.clone(),
        };
        ExecSandbox::begin(request, settings)
    }

    pub fn revoke_ssh_session(&self, token: String) -> (flow: RevokeSshSession)
        ensures
            RevokeSshSession::begins(token, flow),
    {
        RevokeSshSession::begin(token)
    }

    pub fn update_sandbox_policy(&self, request: UpdateSandboxPolicyRequest) -> (flow:
        UpdateSandboxPolicy)
        ensures
            UpdateSandboxPolicy::begins(request, flow),
    {
        UpdateSandboxPolicy::begin(request)
    }

    pub fn get_sandbox_policy_status(&self, name: String, version: u32) -> (flow:
        GetSandboxPolicyStatus)
        ensures
            GetSandboxPolicyStatus::begins(name, version, flow),
    {
        GetSandboxPolicyStatus::begin(name, version)
    }

    pub fn list_sandbox_policies(&self, name: String, limit: u32, offset: u32) -> (flow:
        ListSandboxPolicies)
        ensures
            ListSandboxPolicies::begins(name, limit, offset, flow),
    {
        ListSandboxPolicies::begin(name, limit, offset)
    }

    pub fn report_policy_status(&self, request: ReportPolicyStatusRequest) -> (flow:
        ReportPolicyStatus)
        ensures
            exists|now: Result<i64, String>| #[trigger]
                ReportPolicyStatus::begins(request, now, flow) && (now matches Ok(ms) ==> ms >= 0),
    {
        ReportPolicyStatus::begin(request)
    }

    pub fn get_sandbox_logs(&self, request: GetSandboxLogsRequest) -> (flow: GetSandboxLogs)
        ensures
            GetSandboxLogs::begins(request, flow),
    {
        GetSandboxLogs::begin(request)
    }

    pub fn push_sandbox_logs(&self) -> (flow: PushSandboxLogs)
        ensures
            flow == PushSandboxLogs::Next,
    {
        PushSandboxLogs::begin()
    }
}

} // verus!
