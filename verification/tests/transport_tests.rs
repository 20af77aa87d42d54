use rtmp_client::transport::Transport;

struct Loopback {
    input: Vec<u8>,
    pos: usize,
    output: Vec<u8>,
}

impl Transport for Loopback {
    fn connect(&mut self, _ip: String, _port: u16) -> Result<(), std::io::Error> {
        Ok(())
    }

    fn disconnect(&mut self) -> Result<(), std::io::Error> {
        Ok(())
    }

    fn read_data(&mut self, size: usize) -> Result<Vec<u8>, std::io::Error> {
        if self.input.len() - self.pos < size {
            return Err(std::io::Error::new(std::io::ErrorKind::UnexpectedEof, "short read"));
        }
        let out = self.input[self.pos..self.pos + size].to_vec();
        self.pos += size;
        Ok(out)
    }

    fn write_data(&mut self, data: Vec<u8>) -> Result<(), std::io::Error> {
        self.output.extend_from_slice(&data);
        Ok(())
    }
}

#[test]
fn read_u8_takes_the_next_byte() {
    let mut t = Loopback { input: vec![7, 9], pos: 0, output: Vec::new() };
    assert_eq!(t.read_u8().unwrap(), 7);
    assert_eq!(t.read_u8().unwrap(), 9);
    assert!(t.read_u8().is_err());
}

#[test]
fn default_readers_put_bytes_together() {
    let mut t = Loopback { input: vec![1, 2, 3, 4, 1, 2, 3, 4, 0xAB, 0xCD, 9], pos: 0, output: Vec::new() };
    assert_eq!(t.read_u32_le().unwrap(), 0x04030201);
    assert_eq!(t.read_u32_be().unwrap(), 0x01020304);
    assert_eq!(t.read_u16_be().unwrap(), 0xABCD);
    assert!(t.read_u32_be().is_err());
    assert!(t.read_u16_be().is_err());
    assert_eq!(t.read_u8().unwrap(), 9);
}

#[test]
fn writes_are_kept_in_order() {
    let mut t = Loopback { input: vec![], pos: 0, output: Vec::new() };
    t.write_data(vec![1, 2]).unwrap();
    t.write_data(vec![]).unwrap();
    t.write_data(vec![3]).unwrap();
    assert_eq!(t.output, vec![1, 2, 3]);
    assert!(t.connect("h".to_string(), 1).is_ok());
    assert!(t.disconnect().is_ok());
}
