//! The ipc() multiplexer of the m68k ABI: which System V IPC call a request is, and
//! the registers that call sees.

use vstd::prelude::*;

use crate::cpu::{Cpu, CpuModel};
use crate::error::CpuError;

verus! {

/// The System V IPC calls that ipc() reaches.
#[derive(Clone, Copy, Debug, PartialEq, Eq, Structural)]
pub enum IpcCall {
    SemGet,
    SemCtl,
    ShmGet,
    ShmCtl,
    ShmAt,
    ShmDt,
    MsgGet,
    MsgSnd,
    MsgRcv,
    MsgCtl,
}

/// The sub-call an ipc() call number names: semop and semtimedop (1 and 4) are not
/// provided, and numbers without a call are refused.
pub open spec fn ipc_call_of(call: u32) -> Result<IpcCall, CpuError> {
    if call == 2 {
        Ok(IpcCall::SemGet)
    } else if call == 3 {
        Ok(IpcCall::SemCtl)
    } else if call == 23 {
        Ok(IpcCall::ShmGet)
    } else if call == 24 {
        Ok(IpcCall::ShmCtl)
    } else if call == 21 {
        Ok(IpcCall::ShmAt)
    } else if call == 22 {
        Ok(IpcCall::ShmDt)
    } else if call == 13 {
        Ok(IpcCall::MsgGet)
    } else if call == 11 {
        Ok(IpcCall::MsgSnd)
    } else if call == 12 {
        Ok(IpcCall::MsgRcv)
    } else if call == 14 {
        Ok(IpcCall::MsgCtl)
    } else if call == 1 || call == 4 {
        Err(CpuError::IpcNotImplemented { call })
    } else {
        Err(CpuError::UnknownIpcCall { call })
    }
}

/// The data registers the sub-call sees: ipc(call, first, second, third, ptr, fifth)
/// arrives in D1-D6, and each sub-call takes its own arguments from D1 on.
pub open spec fn ipc_regs_of(d: Seq<u32>, c: IpcCall) -> Seq<u32> {
    let first = d[2];
    let second = d[3];
    let third = d[4];
    let ptr = d[5];
    let fifth = d[6];
    match c {
        IpcCall::SemGet | IpcCall::ShmGet | IpcCall::ShmAt => d.update(1, first).update(2, second).update(3, third),
        IpcCall::SemCtl => d.update(1, first).update(2, second).update(3, third).update(4, ptr),
        IpcCall::ShmCtl | IpcCall::MsgCtl => d.update(1, first).update(2, second).update(3, ptr),
        IpcCall::ShmDt => d.update(1, ptr),
        IpcCall::MsgGet => d.update(1, first).update(2, second),
        IpcCall::MsgSnd => d.update(1, first).update(2, ptr).update(3, second).update(4, third),
        IpcCall::MsgRcv => d.update(1, first).update(2, ptr).update(3, second).update(4, fifth).update(5, third),
    }
}

/// Which call an ipc() request is, and the registers that call sees.
pub open spec fn ipc_spec(m: CpuModel) -> Result<(IpcCall, Seq<u32>), CpuError> {
    match ipc_call_of(m.d[1]) {
        Err(e) => Err(e),
        Ok(c) => Ok((c, ipc_regs_of(m.d, c))),
    }
}

impl Cpu {
    /// Decode an ipc() request: the sub-call and the data registers it is to run with
    /// (the caller runs it with these registers and then puts the old ones back).
    pub fn ipc_registers(&self) -> (r: Result<(IpcCall, [u32; 8]), CpuError>)
        ensures
            match ipc_spec(self@) {
                Ok((c, regs)) => r matches Ok((c2, regs2)) && c2 == c && regs2@ == regs,
                Err(e) => r == Err::<(IpcCall, [u32; 8]), CpuError>(e),
            },
    {
        let call = self.data_regs[1];
        let first = self.data_regs[2];
        let second = self.data_regs[3];
        let third = self.data_regs[4];
        let ptr = self.data_regs[5];
        let fifth = self.data_regs[6];
        let mut regs = self.data_regs;
        let c = if call == 2 {
            IpcCall::SemGet
        } else if call == 3 {
            IpcCall::SemCtl
        } else if call == 23 {
            IpcCall::ShmGet
        } else if call == 24 {
            IpcCall::ShmCtl
        } else if call == 21 {
            IpcCall::ShmAt
        } else if call == 22 {
            IpcCall::ShmDt
        } else if call == 13 {
            IpcCall::MsgGet
        } else if call == 11 {
            IpcCall::MsgSnd
        } else if call == 12 {
            IpcCall::MsgRcv
        } else if call == 14 {
            IpcCall::MsgCtl
        } else if call == 1 || call == 4 {
            return Err(CpuError::IpcNotImplemented { call });
        } else {
            return Err(CpuError::UnknownIpcCall { call });
        };
        match c {
            IpcCall::SemGet | IpcCall::ShmGet | IpcCall::ShmAt => {
                regs[1] = first;
                regs[2] = second;
                regs[3] = third;
            },
            IpcCall::SemCtl => {
                regs[1] = first;
                regs[2] = second;
                regs[3] = third;
                regs[4] = ptr;
            },
            IpcCall::ShmCtl | IpcCall::MsgCtl => {
                regs[1] = first;
                regs[2] = second;
                regs[3] = ptr;
            },
            IpcCall::ShmDt => {
                regs[1] = ptr;
            },
            IpcCall::MsgGet => {
                regs[1] = first;
                regs[2] = second;
            },
            IpcCall::MsgSnd => {
                regs[1] = first;
                regs[2] = ptr;
                regs[3] = second;
                regs[4] = third;
            },
            IpcCall::MsgRcv => {
                regs[1] = first;
                regs[2] = ptr;
                regs[3] = second;
                regs[4] = fifth;
                regs[5] = third;
            },
        }
        assert(regs@ =~= ipc_regs_of(self@.d, c));
        Ok((c, regs))
    }
}

} // verus!
