use rust_os::exec::{ExecResult, Terminal};
use rust_os::pcb::Status;
use rust_os::sys::{get_core_dump_str, System};
use rust_os::tbl::MAX_PROCS;

fn run_to_end(sys: &mut System, pid: u16, use_term: bool, term: &mut Terminal) -> ExecResult {
    loop {
        let r = sys.run_slice(pid, use_term, term).unwrap();
        if r != ExecResult::Success {
            return r;
        }
    }
}

#[test]
fn load_constant_and_exit() {
    let mut sys = System::new();
    let pid = sys.exec("const", &[0x12, 0x01, 0x00, 0x2A, 0xFF, 0x00, 0x00, 0x00]).unwrap();
    let mut term = Terminal::new();
    assert_eq!(run_to_end(&mut sys, pid, true, &mut term), ExecResult::Exit);
    assert_eq!(sys.proc_tbl.get_pcb(pid).ctx.registers[1], 0x002A);
    assert_eq!(sys.cpu.registers[1], 0x002A);
    assert_eq!(sys.proc_tbl.get_pcb(pid).status, Status::Exited);
    assert!(term.output.is_empty());
    assert_eq!(sys.exit_process(pid, ExecResult::Exit), None);
}

#[test]
fn add_and_equal() {
    let prog = [
        0x12, 0x01, 0x00, 0x03, 0x12, 0x02, 0x00, 0x04, 0x21, 0x01, 0x02, 0x03, 0x25, 0x03, 0x03,
        0x00, 0xFF, 0x00, 0x00, 0x00,
    ];
    let mut sys = System::new();
    let pid = sys.exec("add", &prog).unwrap();
    let mut term = Terminal::new();
    assert_eq!(run_to_end(&mut sys, pid, true, &mut term), ExecResult::Exit);
    let regs = sys.proc_tbl.get_pcb(pid).ctx.registers;
    assert_eq!(regs[3], 7);
    assert_eq!(regs[0], 1);
}

#[test]
fn print_a() {
    let prog = [
        0x12, 0x01, 0x00, 0x41, 0x13, 0x00, 0x20, 0x01, 0x41, 0x00, 0x21, 0x00, 0xFF, 0x00, 0x00,
        0x00,
    ];
    let mut sys = System::new();
    let pid = sys.exec("print", &prog).unwrap();
    let mut term = Terminal::new();
    assert_eq!(run_to_end(&mut sys, pid, true, &mut term), ExecResult::Exit);
    let stack = sys.proc_tbl.get_pcb(pid).stack.bytes;
    assert_eq!(stack[0x20], 0x00);
    assert_eq!(stack[0x21], 0x41);
    assert_eq!(term.output, b"A".to_vec());
}

#[test]
fn print_at_word_address_emits_high_byte() {
    let prog = [
        0x12, 0x01, 0x00, 0x41, 0x13, 0x00, 0x20, 0x01, 0x41, 0x00, 0x20, 0x00, 0xFF, 0x00, 0x00,
        0x00,
    ];
    let mut sys = System::new();
    let pid = sys.exec("print", &prog).unwrap();
    let mut term = Terminal::new();
    assert_eq!(run_to_end(&mut sys, pid, true, &mut term), ExecResult::Exit);
    assert_eq!(term.output, vec![0x00]);
    let mut quiet = Terminal::new();
    let pid2 = sys.exec("print", &prog).unwrap();
    assert_eq!(run_to_end(&mut sys, pid2, false, &mut quiet), ExecResult::Exit);
    assert!(quiet.output.is_empty());
}

#[test]
fn divide_by_zero_faults() {
    let prog = [
        0x12, 0x01, 0x00, 0x05, 0x12, 0x02, 0x00, 0x00, 0x24, 0x01, 0x02, 0x03, 0xFF, 0x00, 0x00,
        0x00,
    ];
    let mut sys = System::new();
    let pid = sys.exec("div", &prog).unwrap();
    let mut term = Terminal::new();
    assert_eq!(run_to_end(&mut sys, pid, true, &mut term), ExecResult::Fault);
    let dump = sys.exit_process(pid, ExecResult::Fault).unwrap();
    assert!(dump.starts_with("cpu\t12\t0\t5\t0\t0\t0\t0\n"));
    assert!(dump.contains("pcb\t0\tExited\t12\t0\t5\t0\t0\t0\t0\n"));
    assert_eq!(sys.exits, vec![pid]);
    sys.reap_exited();
    assert!(!sys.proc_tbl.contains(pid));
}

#[test]
fn unaligned_goto_faults() {
    let mut sys = System::new();
    let pid = sys.exec("jump", &[0x31, 0x00, 0x01, 0x00, 0xFF, 0x00, 0x00, 0x00]).unwrap();
    let mut term = Terminal::new();
    assert_eq!(run_to_end(&mut sys, pid, true, &mut term), ExecResult::Fault);
    assert_eq!(sys.proc_tbl.get_pcb(pid).ctx.instr_ptr, 0x0001);
    let dump = sys.core_dump(pid).unwrap();
    assert!(dump.starts_with("cpu\t1\t"));
}

fn counter() -> Vec<u8> {
    vec![0x12, 0x01, 0x00, 0x01, 0x21, 0x00, 0x01, 0x00, 0x31, 0x00, 0x04, 0x00]
}

fn listed_pids(listing: &str) -> Vec<String> {
    listing.lines().skip(1).map(|l| l.split('\t').next().unwrap().to_string()).collect()
}

#[test]
fn two_processes_round_robin() {
    let mut sys = System::new();
    let first = sys.exec("counter1", &counter()).unwrap();
    let second = sys.exec("counter2", &counter()).unwrap();
    assert_eq!((first, second), (0, 1));
    let mut term = Terminal::new();
    let mut last = [0u16; 2];
    for _ in 0..3 {
        for (k, pid) in [first, second].iter().enumerate() {
            assert_eq!(sys.run_slice(*pid, false, &mut term), Some(ExecResult::Success));
            let count = sys.proc_tbl.get_pcb(*pid).ctx.registers[0];
            assert!(count > last[k]);
            last[k] = count;
        }
    }
    let listing = sys.list_procs();
    assert_eq!(listed_pids(&listing), vec!["0".to_string(), "1".to_string()]);
    assert!(listing.contains("\tBlocked\t"));
    assert!(listing.lines().nth(1).unwrap().ends_with("\tcounter1"));
    assert_eq!(sys.kill(first), Ok(()));
    sys.reap_exited();
    assert_eq!(listed_pids(&sys.list_procs()), vec!["1".to_string()]);
    assert_eq!(sys.run_slice(first, false, &mut term), None);
}

#[test]
fn instruction_pointer_grows_between_slices() {
    let prog = [
        0x12, 0x00, 0x00, 0x01, 0x42, 0x00, 0x00, 0x00, 0x12, 0x00, 0x00, 0x02, 0x42, 0x00, 0x00,
        0x00, 0xFF, 0x00, 0x00, 0x00,
    ];
    let mut sys = System::new();
    let a = sys.exec("a", &prog).unwrap();
    let b = sys.exec("b", &prog).unwrap();
    let mut ta = Terminal::new();
    let mut tb = Terminal::new();
    assert_eq!(sys.run_slice(a, true, &mut ta), Some(ExecResult::NeedInput));
    assert_eq!(sys.run_slice(b, true, &mut tb), Some(ExecResult::NeedInput));
    assert_eq!(sys.proc_tbl.get_pcb(a).ctx.instr_ptr, 4);
    assert_eq!(sys.proc_tbl.get_pcb(b).ctx.instr_ptr, 4);
    ta.input.push(1);
    tb.input.push(2);
    assert_eq!(sys.run_slice(a, true, &mut ta), Some(ExecResult::NeedInput));
    assert_eq!(sys.run_slice(b, true, &mut tb), Some(ExecResult::NeedInput));
    assert_eq!(sys.proc_tbl.get_pcb(a).ctx.instr_ptr, 12);
    assert_eq!(sys.proc_tbl.get_pcb(b).ctx.instr_ptr, 12);
    assert_eq!(sys.proc_tbl.get_pcb(b).stack.bytes[0], 2);
}

#[test]
fn listing_of_a_new_process() {
    let mut sys = System::init();
    assert_eq!(sys.list_procs(), "pid\tstate\tip\t1\t2\t3\t4\t5\t6\texe\n");
    sys.exec("prog", &[0xFF, 0, 0, 0]).unwrap();
    assert_eq!(
        sys.list_procs(),
        "pid\tstate\tip\t1\t2\t3\t4\t5\t6\texe\n0\tNew\t0\t0\t0\t0\t0\t0\t0\tprog\n"
    );
}

#[test]
fn exec_errors() {
    let mut sys = System::new();
    assert!(sys.exec("bad", &[0x12, 0x01]).is_err());
    assert!(sys.exec("empty", &[]).is_err());
    assert!(sys.exec("big", &[0xFFu8; 1032]).is_err());
    for _ in 0..MAX_PROCS {
        assert!(sys.exec("ok", &[0xFF, 0, 0, 0]).is_ok());
    }
    assert_eq!(sys.exec("full", &[0xFF, 0, 0, 0]), Err("Could not allocate another process.".to_string()));
}

#[test]
fn kill_unknown_process() {
    let mut sys = System::new();
    assert_eq!(sys.kill(4), Err("No process with 4 exists.".to_string()));
    assert_eq!(sys.kill(1234), Err("No process with 1234 exists.".to_string()));
    assert!(sys.exits.is_empty());
}

#[test]
fn kill_then_reap_frees_the_id() {
    let mut sys = System::new();
    let a = sys.exec("a", &[0xFF, 0, 0, 0]).unwrap();
    let b = sys.exec("b", &[0xFF, 0, 0, 0]).unwrap();
    assert_eq!(sys.kill(a), Ok(()));
    assert!(sys.proc_tbl.contains(a));
    sys.reap_exited();
    assert!(!sys.proc_tbl.contains(a));
    assert!(sys.proc_tbl.contains(b));
    assert!(sys.exits.is_empty());
    assert_eq!(sys.exec("c", &[0xFF, 0, 0, 0]), Ok(a));
}

#[test]
fn list_files_joins_with_tabs() {
    let sys = System::new();
    let names = vec!["counter1".to_string(), "coredump".to_string()];
    assert_eq!(sys.list_files(&names), "counter1\tcoredump\t");
    assert_eq!(sys.list_files(&Vec::new()), "");
}

#[test]
fn core_dump_text() {
    let mut sys = System::new();
    let pid = sys.exec("p", &[0xFF, 0, 0, 0]).unwrap();
    sys.cpu.instr_ptr = 4;
    sys.cpu.registers = [1, 2, 3, 4, 5, 65535];
    let dump = get_core_dump_str(&sys.cpu, sys.proc_tbl.get_pcb(pid));
    let mut expected = String::from("cpu\t4\t1\t2\t3\t4\t5\t65535\npcb\t0\tNew\t0\t0\t0\t0\t0\t0\t0\nstack");
    for _ in 0..64 {
        expected.push_str("\t0");
    }
    expected.push('\n');
    assert_eq!(dump, expected);
    assert_eq!(sys.core_dump(9), None);
}
