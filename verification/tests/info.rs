use ku::info::ProcessInfo;
use ku::ipc::pipe::WriteBuffer;
use ku::memory::{Block, Page, Virt};
use ku::process::Pid;

fn virt(address: usize) -> Virt {
    Virt::new(address).unwrap()
}

fn process_info() -> ProcessInfo {
    let log = WriteBuffer::new(Block::<Page>::from_index(0x200, 0x202).unwrap());
    ProcessInfo::new(log, 510, virt(0x30_0000))
}

#[test]
fn process_info_keeps_what_the_kernel_sets() {
    let mut info = process_info();
    assert_eq!(info.pid(), Pid::Current);
    assert_eq!(info.recursive_mapping(), 510);
    assert_eq!(info.system_info(), virt(0x30_0000));
    assert!(info.stack().is_empty());
    assert_eq!(info.log().block(), Block::<Page>::from_index(0x200, 0x202).unwrap());

    let pid = Pid::from_usize(3).unwrap();
    info.set_pid(pid);
    assert_eq!(info.pid(), pid);
    let stack = Block::<Virt>::from_index(0x7000_0000, 0x7001_0000).unwrap();
    info.set_stack(stack);
    assert_eq!(info.stack(), stack);
}

#[test]
fn process_info_tells_its_own_pages() {
    let info = process_info();
    let own = Block::<Virt>::from_index(0x10_0010, 0x10_0100).unwrap();
    let system = Block::<Virt>::from_index(0x30_0000, 0x30_0040).unwrap();
    let log = Block::<Virt>::from_index(0x10_0020, 0x10_0060).unwrap();
    assert!(info.contains_address(own, system, log, virt(0x10_0FFF)));
    assert!(info.contains_address(own, system, log, virt(0x30_0FFF)));
    assert!(info.contains_address(own, system, log, virt(0x20_1000)));
    assert!(!info.contains_address(own, system, log, virt(0x20_2000)));
    assert!(!info.contains_address(own, system, log, virt(0x10_1000)));
}
