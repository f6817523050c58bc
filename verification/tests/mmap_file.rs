use lib::lab6::kernel_task3::abi::{EBUSY, EINVAL, MMAP_PAGE_SIZE};
use lib::lab6::kernel_task3::mmap::{fault_cause_name, fill_pattern, MmapKernel};

const WINDOW: usize = 0x8040_0000;

fn kernel_with_file(bytes: &[u8]) -> MmapKernel {
    let mut k = MmapKernel::new(WINDOW);
    assert_eq!(k.fs.create_file(b"/mapped.bin"), 0);
    assert_eq!(k.fs.write_at(b"/mapped.bin", 0, bytes), bytes.len() as isize);
    k
}

#[test]
fn map_fault_modify_sync() {
    let content = vec![7u8; MMAP_PAGE_SIZE];
    let mut k = kernel_with_file(&content);
    assert_eq!(k.sys_mmap(Ok(b"/mapped.bin"), MMAP_PAGE_SIZE), WINDOW as isize);
    assert_eq!(k.diagnostics.mmap_calls, 1);
    // The first access faults the page in.
    assert!(k.handle_page_fault(13, WINDOW + 37));
    assert!(k.mapping.loaded);
    assert_eq!(k.page[37], 7);
    assert_eq!(k.diagnostics.pages_loaded, 1);
    assert_eq!(k.diagnostics.last_fault_addr, (WINDOW + 37) as u64);
    // A clean page is not written back.
    assert_eq!(k.sys_msync(WINDOW, MMAP_PAGE_SIZE), 0);
    assert_eq!(k.diagnostics.msync_writebacks, 0);
    // The user writes through the window; msync writes it back.
    fill_pattern(&mut k.page[..]);
    assert_eq!(k.sys_msync(WINDOW, MMAP_PAGE_SIZE), 0);
    assert_eq!(k.diagnostics.msync_writebacks, 1);
    assert_eq!(k.diagnostics.last_writeback_bytes, MMAP_PAGE_SIZE as u64);
    let mut out = vec![0u8; MMAP_PAGE_SIZE];
    assert_eq!(k.fs.read_at(b"/mapped.bin", 0, &mut out), MMAP_PAGE_SIZE as isize);
    assert_eq!(out[1024], (((1024u32 * 37) ^ 0x5a) & 0xff) as u8);
    assert_eq!(out, k.page);
    // munmap drops the mapping and clears the window.
    assert_eq!(k.sys_munmap(WINDOW, MMAP_PAGE_SIZE), 0);
    assert!(!k.mapping.active);
    assert!(k.page.iter().all(|b| *b == 0));
}

#[test]
fn mmap_errors() {
    let mut k = kernel_with_file(b"abc");
    assert_eq!(k.sys_mmap(Ok(b"/mapped.bin"), 0), EINVAL);
    assert_eq!(k.sys_mmap(Ok(b"/mapped.bin"), MMAP_PAGE_SIZE + 1), EINVAL);
    assert_eq!(k.diagnostics.last_error, EINVAL as i64);
    assert_eq!(k.sys_mmap(Ok(b"/"), 16), EINVAL);
    assert_eq!(k.sys_mmap(Err(-14), 16), -14);
    assert_eq!(k.sys_mmap(Ok(b"/missing"), 16), -2);
    assert_eq!(k.sys_mmap(Ok(b"/mapped.bin"), 3), WINDOW as isize);
    assert_eq!(k.sys_mmap(Ok(b"/mapped.bin"), 3), EBUSY);
    assert_eq!(k.sys_msync(WINDOW + 1, MMAP_PAGE_SIZE), EINVAL);
    assert_eq!(k.sys_munmap(WINDOW, 1), EINVAL);
}

#[test]
fn faults_outside_the_window_or_without_mapping() {
    let mut k = kernel_with_file(b"abc");
    assert!(!k.handle_page_fault(13, WINDOW - 1));
    assert!(!k.handle_page_fault(13, WINDOW));
    assert_eq!(k.diagnostics.last_error, EINVAL as i64);
    // A mapping longer than the file cannot be loaded.
    assert_eq!(k.sys_mmap(Ok(b"/mapped.bin"), 16), WINDOW as isize);
    assert!(!k.handle_page_fault(15, WINDOW + 8));
    assert_eq!(k.diagnostics.last_error, -14);
}

#[test]
fn cause_names() {
    assert_eq!(fault_cause_name(5), "load-access");
    assert_eq!(fault_cause_name(7), "store-access");
    assert_eq!(fault_cause_name(13), "load");
    assert_eq!(fault_cause_name(15), "store");
    assert_eq!(fault_cause_name(2), "unknown");
}
