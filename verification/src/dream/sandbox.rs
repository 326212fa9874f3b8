//! The sandbox a dream's model calls run in: which operations it may ask
//! for, and its token budget.
use vstd::prelude::*;
use crate::text::{chars_of, contains, contains_vec, copy_str, push_str};

verus! {

/// What a sandboxed request does.
#[derive(Debug, Clone, Copy, PartialEq, Eq, Structural)]
pub enum SandboxOperation {
    ReadMemory,
    WriteMemory,
    ReadFile,
    SearchMemory,
}

/// A request made inside the sandbox.
#[derive(Debug)]
pub struct SandboxRequest {
    pub operation: SandboxOperation,
    pub target: String,
    pub content: Option<String>,
}

/// The name of an operation.
pub open spec fn operation_name(op: SandboxOperation) -> Seq<char> {
    match op {
        SandboxOperation::ReadMemory => "ReadMemory"@,
        SandboxOperation::WriteMemory => "WriteMemory"@,
        SandboxOperation::ReadFile => "ReadFile"@,
        SandboxOperation::SearchMemory => "SearchMemory"@,
    }
}

/// A target no sandboxed read may touch: environment files, secrets,
/// credentials, ssh keys.
pub open spec fn is_sensitive(target: Seq<char>) -> bool {
    contains(target, ".env"@) || contains(target, "secrets"@) || contains(target, "credentials"@)
        || contains(target, ".ssh"@) || contains(target, "id_rsa"@)
}

/// The sandbox: allowed operations and the token budget (the cost budget is
/// the caller's).
#[derive(Debug)]
pub struct DreamSandbox {
    allowed_operations: Vec<SandboxOperation>,
    max_tokens: u64,
    tokens_used: u64,
}

impl SandboxOperation {
    /// The operation's name.
    pub fn name(&self) -> (r: &'static str)
        ensures
            r@ == operation_name(*self),
    {
        match self {
            SandboxOperation::ReadMemory => "ReadMemory",
            SandboxOperation::WriteMemory => "WriteMemory",
            SandboxOperation::ReadFile => "ReadFile",
            SandboxOperation::SearchMemory => "SearchMemory",
        }
    }
}

impl DreamSandbox {
    pub closed spec fn allowed(&self) -> Seq<SandboxOperation> {
        self.allowed_operations@
    }

    pub closed spec fn token_budget(&self) -> nat {
        self.max_tokens as nat
    }

    pub closed spec fn tokens_spent(&self) -> nat {
        self.tokens_used as nat
    }

    /// A sandbox allowing every operation, with `max_tokens` tokens to spend.
    pub fn new(max_tokens: u64) -> (r: Self)
        ensures
            r.allowed() == seq![
                SandboxOperation::ReadMemory,
                SandboxOperation::WriteMemory,
                SandboxOperation::ReadFile,
                SandboxOperation::SearchMemory,
            ],
            r.token_budget() == max_tokens,
            r.tokens_spent() == 0,
    {
        let allowed_operations = vec![
            SandboxOperation::ReadMemory,
            SandboxOperation::WriteMemory,
            SandboxOperation::ReadFile,
            SandboxOperation::SearchMemory,
        ];
        DreamSandbox { allowed_operations, max_tokens, tokens_used: 0 }
    }

    /// Whether the operation is allowed.
    pub fn is_allowed(&self, op: SandboxOperation) -> (b: bool)
        ensures
            b == self.allowed().contains(op),
    {
        let mut k: usize = 0;
        while k < self.allowed_operations.len()
            invariant
                k <= self.allowed_operations.len(),
                forall|q: int| 0 <= q < k ==> self.allowed_operations@[q] != op,
            decreases self.allowed_operations.len() - k,
        {
            if self.allowed_operations[k] == op {
                assert(self.allowed_operations@[k as int] == op);
                return true;
            }
            k = k + 1;
        }
        false
    }

    /// Tokens are left (the cost budget, `cost_left`, as the caller found it).
    pub fn has_budget(&self, cost_left: bool) -> (b: bool)
        ensures
            b == (self.tokens_spent() < self.token_budget() && cost_left),
    {
        self.tokens_used < self.max_tokens && cost_left
    }

    /// Counts tokens spent.
    pub fn record_usage(&mut self, tokens: u64)
        requires
            old(self).tokens_spent() + tokens <= u64::MAX,
        ensures
            final(self).tokens_spent() == old(self).tokens_spent() + tokens,
            final(self).token_budget() == old(self).token_budget(),
            final(self).allowed() == old(self).allowed(),
    {
        self.tokens_used = self.tokens_used + tokens;
    }

    /// Tokens spent so far.
    pub fn tokens_used(&self) -> (r: u64)
        ensures
            r == self.tokens_spent(),
    {
        self.tokens_used
    }

    /// Whether a request may run: its operation allowed, budget left, and no
    /// sensitive file read; else why not.
    pub fn validate(&self, request: &SandboxRequest, cost_left: bool) -> (r: Result<(), String>)
        ensures
            !self.allowed().contains(request.operation) ==> (r matches Err(m) && m@ == "Operation "@
                + operation_name(request.operation) + " is not allowed in sandbox"@),
            self.allowed().contains(request.operation) && !(self.tokens_spent() < self.token_budget() && cost_left)
                ==> (r matches Err(m) && m@ == "Sandbox budget exhausted"@),
            self.allowed().contains(request.operation) && self.tokens_spent() < self.token_budget() && cost_left
                ==> if request.operation == SandboxOperation::ReadFile && is_sensitive(request.target@) {
                    (r matches Err(m) && m@ == "Cannot read sensitive file '"@ + request.target@ + "' in sandbox"@)
                } else {
                    r is Ok
                },
    {
        if !self.is_allowed(request.operation) {
            let mut m = copy_str("Operation ");
            push_str(&mut m, request.operation.name());
            push_str(&mut m, " is not allowed in sandbox");
            return Err(m);
        }
        if !self.has_budget(cost_left) {
            return Err(copy_str("Sandbox budget exhausted"));
        }
        if request.operation == SandboxOperation::ReadFile {
            let t = chars_of(request.target.as_str());
            let a = chars_of(".env");
            let b = chars_of("secrets");
            let c = chars_of("credentials");
            let d = chars_of(".ssh");
            let e = chars_of("id_rsa");
            if contains_vec(&t, &a) || contains_vec(&t, &b) || contains_vec(&t, &c) || contains_vec(&t, &d)
                || contains_vec(&t, &e) {
                let mut m = copy_str("Cannot read sensitive file '");
                push_str(&mut m, request.target.as_str());
                push_str(&mut m, "' in sandbox");
                return Err(m);
            }
        }
        Ok(())
    }
}

} // verus!
