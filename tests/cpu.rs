use aleo_std::cpu::{get_cpu, Cpu, CpuIdResult};

fn leaf(vendor: &[u8; 12]) -> CpuIdResult {
    let word = |i: usize| u32::from_le_bytes([vendor[i], vendor[i + 1], vendor[i + 2], vendor[i + 3]]);
    CpuIdResult { eax: 13, ebx: word(0), edx: word(4), ecx: word(8) }
}

#[test]
fn test_get_cpu() {
    let fallback = CpuIdResult { eax: 22, ebx: 1970169159, ecx: 1818588270, edx: 1231384169 };
    println!("{:?}", get_cpu(fallback));
    assert_eq!(get_cpu(fallback), Cpu::Intel);
}

#[test]
fn amd_vendor_string() {
    assert_eq!(get_cpu(leaf(b"AuthenticAMD")), Cpu::AMD);
}

#[test]
fn other_vendor_strings() {
    assert_eq!(get_cpu(leaf(b"HygonGenuine")), Cpu::Unknown);
    assert_eq!(get_cpu(leaf(b"GenuineIntez")), Cpu::Unknown);
    assert_eq!(get_cpu(CpuIdResult { eax: 0, ebx: 0, ecx: 0, edx: 0 }), Cpu::Unknown);
}
